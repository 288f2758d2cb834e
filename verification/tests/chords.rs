use dictation_core::managers::chord::KeyEvent;
use dictation_core::managers::keybinding::{KeyBinding, KeyBindingManager};

const CTRL_RIGHT: u64 = 105;
const META_RIGHT: u64 = 134;
const SPACE: u64 = 65;

type Manager = KeyBindingManager<(), (), &'static str>;

fn manager_with(chords: &[(&str, &[u64])]) -> Manager {
    let mut manager: Manager = KeyBindingManager::new((), ());
    for (id, keys) in chords {
        manager.register(id.to_string(), keys.to_vec(), "press", "release");
    }
    manager
}

fn feed(manager: &mut Manager, events: &[KeyEvent]) -> Vec<Vec<usize>> {
    events.iter().map(|event| manager.handle_event(event.key, event.is_press)).collect()
}

fn press(key: u64) -> KeyEvent {
    KeyEvent { key, is_press: true }
}

fn release(key: u64) -> KeyEvent {
    KeyEvent { key, is_press: false }
}

#[test]
fn two_key_chord_fires_once_each_way() {
    let mut manager = manager_with(&[("talk", &[CTRL_RIGHT, META_RIGHT])]);
    assert_eq!(manager.handle_event(CTRL_RIGHT, true), Vec::<usize>::new());
    assert_eq!(manager.handle_event(META_RIGHT, true), vec![0]);
    assert_eq!(manager.handle_event(META_RIGHT, false), vec![0]);
    assert_eq!(manager.handle_event(CTRL_RIGHT, false), Vec::<usize>::new());
}

#[test]
fn press_fires_once_whatever_the_order() {
    let orders: [[u64; 3]; 6] =
        [[1, 2, 3], [1, 3, 2], [2, 1, 3], [2, 3, 1], [3, 1, 2], [3, 2, 1]];
    for order in orders {
        let mut manager = manager_with(&[("chord", &[1, 2, 3])]);
        let events: Vec<KeyEvent> = order.iter().map(|key| press(*key)).collect();
        let fired = feed(&mut manager, &events);
        assert_eq!(fired, vec![vec![], vec![], vec![0]]);
    }
}

#[test]
fn repeated_presses_do_not_fire_again() {
    let mut manager = manager_with(&[("chord", &[1, 2])]);
    let fired = feed(
        &mut manager,
        &[press(1), press(1), press(2), press(2), press(1), press(2)],
    );
    assert_eq!(fired, vec![vec![], vec![], vec![0], vec![], vec![], vec![]]);
}

#[test]
fn release_fires_once_whichever_key_goes_first() {
    for first in [1u64, 2, 3] {
        let mut manager = manager_with(&[("chord", &[1, 2, 3])]);
        feed(&mut manager, &[press(1), press(2), press(3)]);
        assert_eq!(manager.handle_event(first, false), vec![0]);
        for other in [1u64, 2, 3] {
            assert_eq!(manager.handle_event(other, false), Vec::<usize>::new());
        }
    }
}

#[test]
fn a_release_that_removes_nothing_does_not_fire() {
    let mut manager = manager_with(&[("chord", &[1, 2])]);
    let fired = feed(&mut manager, &[press(1), release(2), press(2), release(2), release(2)]);
    assert_eq!(fired, vec![vec![], vec![], vec![0], vec![0], vec![]]);
}

#[test]
fn every_ascent_fires_again() {
    let mut manager = manager_with(&[("chord", &[1, 2])]);
    let fired = feed(
        &mut manager,
        &[press(1), press(2), release(1), press(1), release(2), release(1), press(2), press(1)],
    );
    assert_eq!(
        fired,
        vec![vec![], vec![0], vec![0], vec![0], vec![0], vec![], vec![], vec![0]]
    );
}

#[test]
fn single_key_chord_fires_on_each_press_and_release() {
    let mut manager = manager_with(&[("solo", &[SPACE])]);
    let fired = feed(&mut manager, &[press(SPACE), press(SPACE), release(SPACE), release(SPACE)]);
    assert_eq!(fired, vec![vec![0], vec![], vec![0], vec![]]);
}

#[test]
fn keys_outside_the_chord_are_ignored() {
    let mut manager = manager_with(&[("chord", &[1, 2])]);
    let fired = feed(&mut manager, &[press(1), press(9), release(9), press(2), press(9), release(9)]);
    assert_eq!(fired, vec![vec![], vec![], vec![], vec![0], vec![], vec![]]);
    assert!(manager.binding(0).unwrap().is_fully_pressed());
}

#[test]
fn overlapping_chords_fire_independently() {
    let mut manager = manager_with(&[("two", &[1, 2]), ("three", &[1, 2, 3])]);
    let fired = feed(&mut manager, &[press(1), press(2), press(3), release(3), release(1)]);
    assert_eq!(fired, vec![vec![], vec![0], vec![1], vec![1], vec![0]]);
}

#[test]
fn chords_with_the_same_keys_fire_together_in_registration_order() {
    let mut manager = manager_with(&[("first", &[1, 2]), ("other", &[7]), ("second", &[2, 1])]);
    let fired = feed(&mut manager, &[press(2), press(1), release(1)]);
    assert_eq!(fired, vec![vec![], vec![0, 2], vec![0, 2]]);
}

#[test]
fn a_key_listed_twice_is_required_once() {
    let mut manager = manager_with(&[("chord", &[1, 1, 2, 1])]);
    let fired = feed(&mut manager, &[press(1), press(2), release(1)]);
    assert_eq!(fired, vec![vec![], vec![0], vec![0]]);
}

#[test]
fn a_binding_without_keys_never_fires() {
    let mut manager = manager_with(&[("empty", &[])]);
    let fired = feed(&mut manager, &[press(1), release(1), press(0), release(0)]);
    assert_eq!(fired, vec![vec![], vec![], vec![], vec![]]);
}

#[test]
fn a_manager_without_bindings_reports_nothing() {
    let mut manager = manager_with(&[]);
    assert_eq!(manager.len(), 0);
    assert_eq!(manager.handle_event(1, true), Vec::<usize>::new());
    assert!(manager.binding(0).is_none());
}

#[test]
fn registration_keeps_id_handlers_and_order() {
    let mut manager: KeyBindingManager<u8, u16, String> = KeyBindingManager::new(7, 9);
    manager.register("a".to_string(), vec![1], "a-down".to_string(), "a-up".to_string());
    manager.register("b".to_string(), vec![2, 3], "b-down".to_string(), "b-up".to_string());
    assert_eq!(manager.len(), 2);
    assert_eq!(manager.context().recording_manager, 7);
    assert_eq!(manager.context().transcription_manager, 9);

    let first = manager.binding(0).unwrap();
    assert_eq!(first.id(), "a");
    assert_eq!(first.on_press(), "a-down");
    assert_eq!(first.on_release(), "a-up");
    assert!(first.uses_key(1));
    assert!(!first.uses_key(2));
    assert!(!first.is_fully_pressed());

    let second = manager.binding(1).unwrap();
    assert_eq!(second.id(), "b");
    assert_eq!(second.on_press(), "b-down");
    assert_eq!(second.on_release(), "b-up");
    assert!(second.uses_key(2) && second.uses_key(3));
    assert!(manager.binding(2).is_none());
}

#[test]
fn the_fired_positions_select_the_handlers() {
    let mut manager = manager_with(&[("a", &[1]), ("b", &[2])]);
    let fired = manager.handle_event(2, true);
    assert_eq!(fired, vec![1]);
    let binding = manager.binding(fired[0]).unwrap();
    assert_eq!(binding.id(), "b");
    assert_eq!(*binding.on_press(), "press");
}

#[test]
fn a_single_binding_steps_on_its_own() {
    let mut binding: KeyBinding<()> = KeyBinding::new("talk".to_string(), vec![4, 5], (), ());
    assert!(!binding.is_fully_pressed());
    assert!(!binding.handle_event(4, true));
    assert!(!binding.handle_event(6, true));
    assert!(binding.handle_event(5, true));
    assert!(binding.is_fully_pressed());
    assert!(!binding.handle_event(5, true));
    assert!(!binding.handle_event(6, false));
    assert!(binding.handle_event(4, false));
    assert!(!binding.is_fully_pressed());
    assert!(!binding.handle_event(5, false));
    assert!(!binding.handle_event(4, false));
}

#[test]
fn presses_and_releases_alternate() {
    let mut binding: KeyBinding<()> = KeyBinding::new("talk".to_string(), vec![1, 2], (), ());
    let events = [
        press(1), release(1), press(2), press(1), press(1), release(3), release(2), release(2),
        press(2), release(1), release(2), press(1), press(2),
    ];
    let mut presses = 0;
    let mut releases = 0;
    for event in events {
        if binding.handle_event(event.key, event.is_press) {
            if event.is_press {
                presses += 1;
            } else {
                releases += 1;
            }
        }
        assert!(presses == releases || presses == releases + 1);
        assert_eq!(presses == releases + 1, binding.is_fully_pressed());
    }
    assert_eq!(presses, 3);
    assert_eq!(releases, 2);
}
