//! The orchestration of push-to-talk: a chord that becomes complete starts a
//! recording under the id of its binding, and the release of that chord ends
//! the recording and hands the captured samples on for transcription.
//!
//! The functions here decide; the caller performs what they return. The
//! handlers neither convert nor transcribe nor deliver: they return the job,
//! so that they never block the thread that dispatches key events.

use vstd::prelude::*;
use crate::managers::audio::{convert_recording, AudioRecordingManager};
use crate::managers::recorder::{convertible, lemma_start_is_exclusive};
use crate::managers::recorder::{RecorderView, TARGET_SAMPLE_RATE};
use crate::managers::keybinding::{KeyBindingManager, KeyBindingManagerView};

verus! {

/// What happened to a shortcut.
#[derive(Clone, Copy, Debug, PartialEq, Eq, Structural)]
pub enum ShortcutState {
    Pressed,
    Released,
}

/// A finished recording that awaits transcription: the samples as captured,
/// and the conversion that has to precede the transcription.
#[derive(Debug)]
pub struct TranscriptionJob<S> {
    /// The captured samples, at `from_rate`.
    pub samples: Vec<S>,
    /// The rate, in hertz, at which the device delivered the samples.
    pub from_rate: u32,
    /// The rate, in hertz, that the transcription service expects.
    pub to_rate: u32,
}

impl<S> TranscriptionJob<S> {
    /// Converts the samples of the job with `resample`, as
    /// [`convert_recording`] does: from the rate of the device to the rate
    /// of the transcription service. A job that is not converted is dropped.
    pub fn resampled<F>(self, resample: F) -> (converted: Option<Vec<S>>)
        where F: FnOnce(u32, u32, Vec<S>) -> Option<Vec<S>>
        requires
            convertible(self.samples@.len(), self.from_rate, self.to_rate) ==> call_requires(
                resample,
                (self.from_rate, self.to_rate, self.samples),
            ),
        ensures
            !convertible(self.samples@.len(), self.from_rate, self.to_rate) ==> converted is None,
            convertible(self.samples@.len(), self.from_rate, self.to_rate) ==> call_ensures(
                resample,
                (self.from_rate, self.to_rate, self.samples),
                converted,
            ),
    {
        convert_recording(self.samples, self.from_rate, self.to_rate, resample)
    }
}

/// What to do with the outcome of a transcription.
#[derive(Debug)]
pub enum OutputAction {
    /// Hand the text to the output sink.
    Deliver { text: String },
    /// Log the failure and drop the recording.
    Report { error: String },
}

/// The press handler of the binding `binding_id`: asks for a recording and
/// does not insist when one is active already.
pub fn transcribe_pressed<S: Copy>(recorder: &mut AudioRecordingManager<S>, binding_id: &str)
    ensures
        final(recorder)@ == old(recorder)@.start(binding_id@),
{
    let _ = recorder.try_start_recording(binding_id);
}

/// The release handler of the binding `binding_id`: ends the recording if
/// this binding owns it, and returns the job of transcribing it. Where the
/// binding owns no recording nothing changes and there is no job.
pub fn transcribe_released<S: Copy>(
    recorder: &mut AudioRecordingManager<S>,
    binding_id: &str,
) -> (job: Option<TranscriptionJob<S>>)
    ensures
        final(recorder)@ == old(recorder)@.stop(binding_id@),
        job is Some <==> old(recorder)@.is_recording_for(binding_id@),
        job is Some ==> {
            &&& job->0.samples@ == old(recorder)@.buffer
            &&& job->0.from_rate == old(recorder)@.sample_rate
            &&& job->0.to_rate == TARGET_SAMPLE_RATE
        },
{
    let from_rate = recorder.sample_rate();
    match recorder.take_recording(binding_id) {
        Some(samples) => Some(TranscriptionJob { samples, from_rate, to_rate: TARGET_SAMPLE_RATE }),
        None => None,
    }
}

/// Handles one event of the global shortcut bound to `binding_id`.
pub fn handle_shortcut<S: Copy>(
    recorder: &mut AudioRecordingManager<S>,
    binding_id: &str,
    state: ShortcutState,
) -> (job: Option<TranscriptionJob<S>>)
    ensures
        state == ShortcutState::Pressed ==> job is None && final(recorder)@ == old(recorder)@.start(
            binding_id@,
        ),
        state == ShortcutState::Released ==> {
            &&& final(recorder)@ == old(recorder)@.stop(binding_id@)
            &&& job is Some <==> old(recorder)@.is_recording_for(binding_id@)
            &&& job is Some ==> {
                &&& job->0.samples@ == old(recorder)@.buffer
                &&& job->0.from_rate == old(recorder)@.sample_rate
                &&& job->0.to_rate == TARGET_SAMPLE_RATE
            }
        },
{
    match state {
        ShortcutState::Pressed => {
            transcribe_pressed(recorder, binding_id);
            None
        },
        ShortcutState::Released => transcribe_released(recorder, binding_id),
    }
}

/// The ids of the bindings that fire on an event, in the order of their
/// registration.
pub open spec fn fired_ids<R, T, H>(
    bindings: KeyBindingManagerView<R, T, H>,
    key: u64,
    is_press: bool,
) -> Seq<Seq<char>> {
    Seq::new(
        bindings.fired(key, is_press).len(),
        |j: int| bindings.bindings[bindings.fired(key, is_press)[j] as int].id,
    )
}

/// The binding at position `j` of `ids` owns the recording and none before
/// it does.
pub open spec fn is_first_owner<S>(recorder: RecorderView<S>, ids: Seq<Seq<char>>, j: int) -> bool {
    &&& 0 <= j < ids.len()
    &&& recorder.is_recording_for(ids[j])
    &&& forall|k: int| 0 <= k < j ==> !recorder.is_recording_for(#[trigger] ids[k])
}

/// Handles one key event for bindings whose handlers are
/// [`transcribe_pressed`] and [`transcribe_released`].
///
/// Every binding takes its step. Then the handlers of those that fire run in
/// the order of registration, all on the one recorder. On a press the first
/// of them that asks gets the recording, if the recorder is idle, and the
/// others are refused. On a release the first of them that owns the
/// recording ends it; the result is the position of its binding and the job
/// of transcribing what was captured.
pub fn dispatch_key_event<S: Copy, R, T, H>(
    bindings: &mut KeyBindingManager<R, T, H>,
    recorder: &mut AudioRecordingManager<S>,
    key: u64,
    is_press: bool,
) -> (job: Option<(usize, TranscriptionJob<S>)>)
    requires
        old(bindings).wf(),
    ensures
        final(bindings).wf(),
        final(bindings)@ == old(bindings)@.step(key, is_press),
        is_press ==> {
            let ids = fired_ids(old(bindings)@, key, true);
            &&& job is None
            &&& final(recorder)@ == if ids.len() > 0 {
                old(recorder)@.start(ids[0])
            } else {
                old(recorder)@
            }
        },
        !is_press ==> {
            let fired = old(bindings)@.fired(key, false);
            let ids = fired_ids(old(bindings)@, key, false);
            match job {
                Some((binding, job)) => {
                    &&& exists|j: int| is_first_owner(old(recorder)@, ids, j) && fired[j] == binding
                    &&& final(recorder)@ == old(recorder)@.stop(
                        old(bindings)@.bindings[binding as int].id,
                    )
                    &&& job.samples@ == old(recorder)@.buffer
                    &&& job.from_rate == old(recorder)@.sample_rate
                    &&& job.to_rate == TARGET_SAMPLE_RATE
                },
                None => {
                    &&& forall|j: int|
                        0 <= j < ids.len() ==> !old(recorder)@.is_recording_for(#[trigger] ids[j])
                    &&& final(recorder)@ == old(recorder)@
                },
            }
        },
{
    let fired = bindings.handle_event(key, is_press);
    let ghost ids = fired_ids(old(bindings)@, key, is_press);
    let mut job: Option<(usize, TranscriptionJob<S>)> = None;
    let mut j: usize = 0;
    while j < fired.len()
        invariant
            j <= fired@.len(),
            bindings.wf(),
            bindings@ == old(bindings)@.step(key, is_press),
            fired@ == old(bindings)@.fired(key, is_press),
            ids == fired_ids(old(bindings)@, key, is_press),
            forall|a: int|
                0 <= a < fired@.len() ==> (#[trigger] fired@[a]) < old(bindings)@.bindings.len(),
            is_press ==> job is None && recorder@ == if j > 0 {
                old(recorder)@.start(ids[0])
            } else {
                old(recorder)@
            },
            !is_press ==> match job {
                Some((binding, job)) => {
                    &&& exists|f: int|
                        f < j && is_first_owner(old(recorder)@, ids, f) && fired@[f] == binding
                    &&& recorder@ == old(recorder)@.stop(old(bindings)@.bindings[binding as int].id)
                    &&& job.samples@ == old(recorder)@.buffer
                    &&& job.from_rate == old(recorder)@.sample_rate
                    &&& job.to_rate == TARGET_SAMPLE_RATE
                },
                None => {
                    &&& forall|k: int|
                        0 <= k < j ==> !old(recorder)@.is_recording_for(#[trigger] ids[k])
                    &&& recorder@ == old(recorder)@
                },
            },
        decreases fired@.len() - j,
    {
        let index = fired[j];
        match bindings.binding(index) {
            Some(binding) => {
                assert(binding@.id == ids[j as int]);
                if is_press {
                    proof {
                        lemma_start_is_exclusive(old(recorder)@, ids[0], ids[j as int]);
                    }
                    transcribe_pressed(recorder, binding.id());
                } else {
                    match transcribe_released(recorder, binding.id()) {
                        Some(found) => {
                            job = Some((index, found));
                        },
                        None => {},
                    }
                }
            },
            None => {},
        }
        j += 1;
    }
    job
}

/// A transcription that succeeded is delivered; one that failed is reported
/// and dropped.
pub fn after_transcription(outcome: Result<String, String>) -> (action: OutputAction)
    ensures
        action == (match outcome {
            Ok(text) => OutputAction::Deliver { text },
            Err(error) => OutputAction::Report { error },
        }),
{
    match outcome {
        Ok(text) => OutputAction::Deliver { text },
        Err(error) => OutputAction::Report { error },
    }
}

} // verus!
