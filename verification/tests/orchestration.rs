use dictation_core::managers::audio::{AudioRecordingManager, RecordingState};
use dictation_core::managers::keybinding::KeyBindingManager;
use dictation_core::shortcut::{
    after_transcription, dispatch_key_event, handle_shortcut, transcribe_pressed,
    transcribe_released, OutputAction, ShortcutState, TranscriptionJob,
};

type Bindings = KeyBindingManager<(), (), ()>;

fn bindings_of(chords: &[(&str, &[u64])]) -> Bindings {
    let mut bindings: Bindings = KeyBindingManager::new((), ());
    for (id, keys) in chords {
        bindings.register(id.to_string(), keys.to_vec(), (), ());
    }
    bindings
}

fn owner(recorder: &AudioRecordingManager<f32>) -> Option<String> {
    match recorder.get_current_recording_state() {
        RecordingState::Recording { binding_id } => Some(binding_id),
        _ => None,
    }
}

#[test]
fn pressed_starts_and_released_yields_the_job() {
    let mut recorder: AudioRecordingManager<f32> = AudioRecordingManager::new(1, 48000);
    transcribe_pressed(&mut recorder, "transcribe");
    assert_eq!(owner(&recorder), Some("transcribe".to_string()));
    recorder.on_audio_data(&[0.1, 0.2]);

    let job = transcribe_released(&mut recorder, "transcribe").expect("the owner released");
    assert_eq!(job.samples, vec![0.1, 0.2]);
    assert_eq!(job.from_rate, 48000);
    assert_eq!(job.to_rate, 16000);
    assert_eq!(owner(&recorder), None);
    assert_eq!(recorder.buffered_len(), 0);
}

#[test]
fn pressed_while_another_records_is_ignored() {
    let mut recorder: AudioRecordingManager<f32> = AudioRecordingManager::new(1, 48000);
    transcribe_pressed(&mut recorder, "a");
    recorder.on_audio_data(&[1.0]);
    transcribe_pressed(&mut recorder, "b");
    assert_eq!(owner(&recorder), Some("a".to_string()));
    assert_eq!(recorder.buffered_len(), 1);
}

#[test]
fn released_by_a_stranger_yields_no_job() {
    let mut recorder: AudioRecordingManager<f32> = AudioRecordingManager::new(1, 48000);
    transcribe_pressed(&mut recorder, "a");
    assert!(transcribe_released(&mut recorder, "b").is_none());
    assert_eq!(owner(&recorder), Some("a".to_string()));
    assert!(transcribe_released(&mut recorder, "a").is_some());
    assert!(transcribe_released(&mut recorder, "a").is_none());
}

#[test]
fn shortcut_events_drive_the_recorder() {
    let mut recorder: AudioRecordingManager<f32> = AudioRecordingManager::new(1, 44100);
    assert!(handle_shortcut(&mut recorder, "alt-space", ShortcutState::Released).is_none());
    assert!(handle_shortcut(&mut recorder, "alt-space", ShortcutState::Pressed).is_none());
    assert_eq!(owner(&recorder), Some("alt-space".to_string()));
    assert!(handle_shortcut(&mut recorder, "alt-space", ShortcutState::Pressed).is_none());
    recorder.on_audio_data(&[3.0]);
    let job = handle_shortcut(&mut recorder, "alt-space", ShortcutState::Released).unwrap();
    assert_eq!(job.samples, vec![3.0]);
    assert_eq!(job.from_rate, 44100);
    assert_eq!(job.to_rate, 16000);
    assert_eq!(owner(&recorder), None);
}

#[test]
fn a_job_is_converted_with_its_own_rates() {
    let job = TranscriptionJob { samples: vec![1.0f32, 2.0, 3.0, 4.0], from_rate: 32000, to_rate: 16000 };
    let converted = job.resampled(|from, to, samples| {
        assert_eq!((from, to), (32000, 16000));
        Some(samples.into_iter().step_by((from / to) as usize).collect())
    });
    assert_eq!(converted, Some(vec![1.0, 3.0]));

    let job = TranscriptionJob { samples: vec![1.0f32], from_rate: 0, to_rate: 16000 };
    assert_eq!(job.resampled(|_, _, _| None), None);
}

#[test]
fn transcriptions_are_delivered_and_failures_reported() {
    match after_transcription(Ok("hello world".to_string())) {
        OutputAction::Deliver { text } => assert_eq!(text, "hello world"),
        OutputAction::Report { .. } => panic!("a transcription that succeeded is delivered"),
    }
    match after_transcription(Err("model not loaded".to_string())) {
        OutputAction::Report { error } => assert_eq!(error, "model not loaded"),
        OutputAction::Deliver { .. } => panic!("a transcription that failed is not delivered"),
    }
    match after_transcription(Ok(String::new())) {
        OutputAction::Deliver { text } => assert_eq!(text, ""),
        OutputAction::Report { .. } => panic!("an empty transcription is still delivered"),
    }
}

#[test]
fn a_held_chord_records_and_its_release_yields_the_job() {
    let mut bindings = bindings_of(&[("talk", &[105, 134])]);
    let mut recorder: AudioRecordingManager<f32> = AudioRecordingManager::new(1, 48000);

    assert!(dispatch_key_event(&mut bindings, &mut recorder, 105, true).is_none());
    assert_eq!(owner(&recorder), None);
    recorder.on_audio_data(&[9.0]);

    assert!(dispatch_key_event(&mut bindings, &mut recorder, 134, true).is_none());
    assert_eq!(owner(&recorder), Some("talk".to_string()));
    recorder.on_audio_data(&[1.0, 2.0]);
    assert!(dispatch_key_event(&mut bindings, &mut recorder, 134, true).is_none());
    recorder.on_audio_data(&[3.0]);

    let (binding, job) = dispatch_key_event(&mut bindings, &mut recorder, 105, false).unwrap();
    assert_eq!(binding, 0);
    assert_eq!(job.samples, vec![1.0, 2.0, 3.0]);
    assert_eq!(job.from_rate, 48000);
    assert_eq!(job.to_rate, 16000);
    assert_eq!(owner(&recorder), None);

    assert!(dispatch_key_event(&mut bindings, &mut recorder, 134, false).is_none());
    assert_eq!(owner(&recorder), None);
}

#[test]
fn of_two_chords_completed_at_once_the_first_registered_records() {
    let mut bindings = bindings_of(&[("first", &[1, 2]), ("second", &[2])]);
    let mut recorder: AudioRecordingManager<f32> = AudioRecordingManager::new(1, 48000);
    assert!(dispatch_key_event(&mut bindings, &mut recorder, 1, true).is_none());
    assert!(dispatch_key_event(&mut bindings, &mut recorder, 2, true).is_none());
    assert_eq!(owner(&recorder), Some("first".to_string()));
    recorder.on_audio_data(&[5.0]);

    let (binding, job) = dispatch_key_event(&mut bindings, &mut recorder, 2, false).unwrap();
    assert_eq!(binding, 0);
    assert_eq!(job.samples, vec![5.0]);
}

#[test]
fn a_chord_pressed_during_another_session_is_refused_and_its_release_is_harmless() {
    let mut bindings = bindings_of(&[("a", &[1]), ("b", &[2])]);
    let mut recorder: AudioRecordingManager<f32> = AudioRecordingManager::new(1, 48000);
    assert!(dispatch_key_event(&mut bindings, &mut recorder, 1, true).is_none());
    recorder.on_audio_data(&[1.0]);
    assert!(dispatch_key_event(&mut bindings, &mut recorder, 2, true).is_none());
    assert_eq!(owner(&recorder), Some("a".to_string()));
    assert!(dispatch_key_event(&mut bindings, &mut recorder, 2, false).is_none());
    assert_eq!(owner(&recorder), Some("a".to_string()));
    assert_eq!(recorder.buffered_len(), 1);

    let (binding, job) = dispatch_key_event(&mut bindings, &mut recorder, 1, false).unwrap();
    assert_eq!(binding, 0);
    assert_eq!(job.samples, vec![1.0]);
}

#[test]
fn a_session_started_elsewhere_is_not_ended_by_a_chord() {
    let mut bindings = bindings_of(&[("talk", &[1])]);
    let mut recorder: AudioRecordingManager<f32> = AudioRecordingManager::new(1, 48000);
    assert!(recorder.try_start_recording("alt-space"));
    assert!(dispatch_key_event(&mut bindings, &mut recorder, 1, true).is_none());
    assert!(dispatch_key_event(&mut bindings, &mut recorder, 1, false).is_none());
    assert_eq!(owner(&recorder), Some("alt-space".to_string()));
}

#[test]
fn chords_do_nothing_while_the_device_initializes() {
    let mut bindings = bindings_of(&[("talk", &[1])]);
    let mut recorder: AudioRecordingManager<f32> = AudioRecordingManager::initializing();
    assert!(dispatch_key_event(&mut bindings, &mut recorder, 1, true).is_none());
    assert!(matches!(recorder.get_current_recording_state(), RecordingState::Initializing));
    assert!(dispatch_key_event(&mut bindings, &mut recorder, 1, false).is_none());
    assert!(matches!(recorder.get_current_recording_state(), RecordingState::Initializing));
}
