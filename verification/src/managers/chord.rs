//! The mathematical model of a chord, and the laws of when its handlers fire.
//!
//! A chord is a finite set of required keys together with the subset of them
//! that is currently held. A handler fires exactly when an event moves the
//! chord into, or out of, the fully pressed state.

use vstd::prelude::*;

verus! {

/// One event of the input stream: a key code and whether it went down.
#[derive(Clone, Copy, Debug, PartialEq, Eq, Structural)]
pub struct KeyEvent {
    pub key: u64,
    pub is_press: bool,
}

/// Model of a chord: the keys it requires and those of them now held.
pub struct ChordView {
    pub keys: Set<u64>,
    pub pressed: Set<u64>,
}

/// The key codes that occur in `events`.
pub open spec fn keys_of(events: Seq<KeyEvent>) -> Set<u64> {
    Set::new(|k: u64| exists|i: int| 0 <= i < events.len() && (#[trigger] events[i]).key == k)
}

/// Every event of `events` is a press.
pub open spec fn all_presses(events: Seq<KeyEvent>) -> bool {
    forall|i: int| 0 <= i < events.len() ==> (#[trigger] events[i]).is_press
}

/// Every event of `events` is a release.
pub open spec fn all_releases(events: Seq<KeyEvent>) -> bool {
    forall|i: int| 0 <= i < events.len() ==> !(#[trigger] events[i]).is_press
}

impl ChordView {
    /// The held keys are among the required ones, of which there are finitely
    /// many.
    pub open spec fn wf(self) -> bool {
        &&& self.keys.finite()
        &&& self.pressed.subset_of(self.keys)
    }

    /// Every required key is held.
    pub open spec fn fully_pressed(self) -> bool {
        self.pressed == self.keys
    }

    /// The chord after one event. A key that the chord does not require
    /// changes nothing.
    pub open spec fn step(self, key: u64, is_press: bool) -> ChordView {
        if !self.keys.contains(key) {
            self
        } else if is_press {
            ChordView { pressed: self.pressed.insert(key), ..self }
        } else {
            ChordView { pressed: self.pressed.remove(key), ..self }
        }
    }

    /// Whether the event fires a handler: a press fires `on_press` when it
    /// completes the chord, a release fires `on_release` when it breaks a
    /// complete chord.
    pub open spec fn fires(self, key: u64, is_press: bool) -> bool {
        if is_press {
            !self.fully_pressed() && self.step(key, true).fully_pressed()
        } else {
            self.fully_pressed() && !self.step(key, false).fully_pressed()
        }
    }

    /// The chord after `events`, taken in order.
    pub open spec fn run(self, events: Seq<KeyEvent>) -> ChordView
        decreases events.len(),
    {
        if events.len() == 0 {
            self
        } else {
            self.run(events.drop_last()).step(events.last().key, events.last().is_press)
        }
    }

    /// Whether the event at `index` of `events` fires a handler.
    pub open spec fn fires_at(self, events: Seq<KeyEvent>, index: int) -> bool {
        self.run(events.take(index)).fires(events[index].key, events[index].is_press)
    }

    /// How often `on_press` fires while `events` are handled in order.
    pub open spec fn press_fires(self, events: Seq<KeyEvent>) -> nat
        decreases events.len(),
    {
        if events.len() == 0 {
            0
        } else {
            let last = events.last();
            let earlier = events.drop_last();
            let now: nat = if last.is_press && self.run(earlier).fires(last.key, true) {
                1
            } else {
                0
            };
            self.press_fires(earlier) + now
        }
    }

    /// How often `on_release` fires while `events` are handled in order.
    pub open spec fn release_fires(self, events: Seq<KeyEvent>) -> nat
        decreases events.len(),
    {
        if events.len() == 0 {
            0
        } else {
            let last = events.last();
            let earlier = events.drop_last();
            let now: nat = if !last.is_press && self.run(earlier).fires(last.key, false) {
                1
            } else {
                0
            };
            self.release_fires(earlier) + now
        }
    }
}

/// The held keys stay among the required ones, whatever the event.
pub proof fn lemma_step_preserves_wf(chord: ChordView, key: u64, is_press: bool)
    requires
        chord.wf(),
    ensures
        chord.step(key, is_press).wf(),
        chord.step(key, is_press).keys == chord.keys,
{
}

/// The held keys stay among the required ones over any sequence of events.
pub proof fn lemma_run_preserves_wf(chord: ChordView, events: Seq<KeyEvent>)
    requires
        chord.wf(),
    ensures
        chord.run(events).wf(),
        chord.run(events).keys == chord.keys,
    decreases events.len(),
{
    if events.len() > 0 {
        lemma_run_preserves_wf(chord, events.drop_last());
        lemma_step_preserves_wf(
            chord.run(events.drop_last()),
            events.last().key,
            events.last().is_press,
        );
    }
}

/// The required keys of a chord never change.
pub proof fn lemma_run_preserves_keys(chord: ChordView, events: Seq<KeyEvent>)
    ensures
        chord.run(events).keys == chord.keys,
    decreases events.len(),
{
    if events.len() > 0 {
        lemma_run_preserves_keys(chord, events.drop_last());
    }
}

/// A key that the chord does not require neither changes it nor fires.
pub proof fn lemma_foreign_key_is_ignored(chord: ChordView, key: u64, is_press: bool)
    requires
        !chord.keys.contains(key),
    ensures
        chord.step(key, is_press) == chord,
        !chord.fires(key, is_press),
{
}

/// A press fires exactly when the chord has one key missing and the press
/// is of that key; a release fires exactly when the chord is complete and the
/// release is of one of its keys, whichever it is. After a release that fires,
/// one key is missing.
pub proof fn lemma_fires_characterized(chord: ChordView, key: u64)
    requires
        chord.wf(),
    ensures
        chord.fires(key, true) <==> (chord.keys.contains(key) && !chord.pressed.contains(key)
            && chord.pressed.insert(key) == chord.keys),
        chord.fires(key, false) <==> (chord.keys.contains(key) && chord.fully_pressed()),
        chord.fires(key, true) ==> chord.pressed.len() + 1 == chord.keys.len(),
        chord.fires(key, false) ==> chord.step(key, false).pressed.len() + 1 == chord.keys.len(),
{
    if chord.fires(key, true) {
        assert(chord.keys.contains(key)) by {
            if !chord.keys.contains(key) {
                assert(chord.step(key, true) == chord);
            }
        }
        assert(!chord.pressed.contains(key)) by {
            if chord.pressed.contains(key) {
                assert(chord.pressed.insert(key) =~= chord.pressed);
            }
        }
        vstd::set_lib::lemma_len_subset(chord.pressed, chord.keys);
    }
    if chord.keys.contains(key) && !chord.pressed.contains(key) && chord.pressed.insert(key)
        == chord.keys {
        assert(chord.pressed != chord.keys);
    }
    if chord.keys.contains(key) && chord.fully_pressed() {
        assert(!chord.step(key, false).pressed.contains(key));
    }
}

/// Pressing keys, in any order and with any repetition, leaves held exactly
/// those required keys that were held before or were pressed; `on_press`
/// fires once if that completes a chord that was incomplete, and never
/// otherwise.
pub proof fn lemma_press_fires_once_per_ascent(chord: ChordView, events: Seq<KeyEvent>)
    requires
        chord.wf(),
        all_presses(events),
    ensures
        chord.run(events).pressed == chord.pressed.union(keys_of(events).intersect(chord.keys)),
        chord.press_fires(events) == if !chord.fully_pressed() && chord.keys.subset_of(
            chord.pressed.union(keys_of(events)),
        ) {
            1nat
        } else {
            0nat
        },
        chord.release_fires(events) == 0,
    decreases events.len(),
{
    if events.len() == 0 {
        assert(keys_of(events) =~= Set::empty());
        assert(chord.pressed.union(keys_of(events).intersect(chord.keys)) =~= chord.pressed);
        assert(chord.keys.subset_of(chord.pressed.union(keys_of(events))) ==> chord.pressed
            =~= chord.keys);
    } else {
        let earlier = events.drop_last();
        let last = events.last();
        lemma_press_fires_once_per_ascent(chord, earlier);
        lemma_run_preserves_wf(chord, earlier);
        lemma_keys_of_push(earlier, last);
        assert(events == earlier.push(last));
        let before = chord.run(earlier);
        let after = chord.run(events);
        assert(after.pressed =~= chord.pressed.union(keys_of(events).intersect(chord.keys)));
        assert(before.fully_pressed() <==> chord.keys.subset_of(
            chord.pressed.union(keys_of(earlier)),
        )) by {
            if chord.keys.subset_of(chord.pressed.union(keys_of(earlier))) {
                assert(before.pressed =~= chord.keys);
            }
        }
        assert(after.fully_pressed() <==> chord.keys.subset_of(
            chord.pressed.union(keys_of(events)),
        )) by {
            if chord.keys.subset_of(chord.pressed.union(keys_of(events))) {
                assert(after.pressed =~= chord.keys);
            }
        }
        if before.fully_pressed() {
            assert(after.pressed =~= chord.keys);
        }
    }
}

/// Releasing keys, in any order and with any repetition, leaves held exactly
/// those keys that were held before and were not released; `on_release` fires
/// once if a complete chord loses a key, and never otherwise.
pub proof fn lemma_release_fires_once_per_descent(chord: ChordView, events: Seq<KeyEvent>)
    requires
        chord.wf(),
        all_releases(events),
    ensures
        chord.run(events).pressed == chord.pressed.difference(keys_of(events)),
        chord.release_fires(events) == if chord.fully_pressed() && !chord.keys.disjoint(
            keys_of(events),
        ) {
            1nat
        } else {
            0nat
        },
        chord.press_fires(events) == 0,
    decreases events.len(),
{
    if events.len() == 0 {
        assert(keys_of(events) =~= Set::empty());
        assert(chord.pressed.difference(keys_of(events)) =~= chord.pressed);
    } else {
        let earlier = events.drop_last();
        let last = events.last();
        lemma_release_fires_once_per_descent(chord, earlier);
        lemma_run_preserves_wf(chord, earlier);
        lemma_keys_of_push(earlier, last);
        assert(events == earlier.push(last));
        let before = chord.run(earlier);
        let after = chord.run(events);
        assert(after.pressed =~= chord.pressed.difference(keys_of(events)));
        if chord.fully_pressed() {
            assert(before.fully_pressed() <==> chord.keys.disjoint(keys_of(earlier))) by {
                if chord.keys.disjoint(keys_of(earlier)) {
                    assert(before.pressed =~= chord.keys);
                }
                if before.fully_pressed() {
                    assert forall|k: u64| chord.keys.contains(k) implies !keys_of(
                        earlier,
                    ).contains(k) by {
                        assert(before.pressed.contains(k));
                    }
                }
            }
            assert(after.fully_pressed() <==> chord.keys.disjoint(keys_of(events))) by {
                if chord.keys.disjoint(keys_of(events)) {
                    assert(after.pressed =~= chord.keys);
                }
                if after.fully_pressed() {
                    assert forall|k: u64| chord.keys.contains(k) implies !keys_of(
                        events,
                    ).contains(k) by {
                        assert(after.pressed.contains(k));
                    }
                }
            }
        } else {
            assert(!before.fully_pressed()) by {
                if before.fully_pressed() {
                    assert(chord.pressed =~= chord.keys);
                }
            }
        }
    }
}

/// A chord of at least one key, none of them held, fires `on_press` exactly
/// once when all of its keys are pressed, in whatever order and however often
/// each of them is repeated.
pub proof fn lemma_chord_fires_once_in_any_order(chord: ChordView, events: Seq<KeyEvent>)
    requires
        chord.wf(),
        chord.keys.len() >= 1,
        chord.pressed == Set::<u64>::empty(),
        all_presses(events),
        chord.keys.subset_of(keys_of(events)),
    ensures
        chord.press_fires(events) == 1,
        chord.run(events).fully_pressed(),
{
    lemma_press_fires_once_per_ascent(chord, events);
    lemma_run_preserves_wf(chord, events);
    assert(chord.run(events).pressed =~= chord.keys);
}

/// A press that arrives while the chord is complete, such as a key repeat,
/// neither changes the chord nor fires.
pub proof fn lemma_repeated_press_does_not_fire(chord: ChordView, key: u64)
    requires
        chord.wf(),
        chord.fully_pressed(),
    ensures
        !chord.fires(key, true),
        chord.step(key, true) == chord,
{
    assert(chord.step(key, true).pressed =~= chord.pressed);
}

/// A complete chord fires `on_release` exactly once while its keys are
/// released, in whatever order, provided that at least one of them is.
pub proof fn lemma_chord_releases_once_in_any_order(chord: ChordView, events: Seq<KeyEvent>)
    requires
        chord.wf(),
        chord.fully_pressed(),
        all_releases(events),
        exists|i: int| 0 <= i < events.len() && chord.keys.contains((#[trigger] events[i]).key),
    ensures
        chord.release_fires(events) == 1,
        !chord.run(events).fully_pressed(),
{
    lemma_release_fires_once_per_descent(chord, events);
    lemma_run_preserves_wf(chord, events);
    let i = choose|i: int| 0 <= i < events.len() && chord.keys.contains((#[trigger] events[i]).key);
    assert(keys_of(events).contains(events[i].key));
    assert(!chord.run(events).pressed.contains(events[i].key));
}

/// Firings alternate: over any sequence of events `on_press` and `on_release`
/// fire equally often, up to the one firing that separates a chord that is
/// complete from one that is not.
pub proof fn lemma_press_and_release_alternate(chord: ChordView, events: Seq<KeyEvent>)
    requires
        chord.wf(),
    ensures
        chord.press_fires(events) + (if chord.fully_pressed() {
            1nat
        } else {
            0nat
        }) == chord.release_fires(events) + (if chord.run(events).fully_pressed() {
            1nat
        } else {
            0nat
        }),
    decreases events.len(),
{
    if events.len() > 0 {
        let earlier = events.drop_last();
        let last = events.last();
        lemma_press_and_release_alternate(chord, earlier);
        lemma_run_preserves_wf(chord, earlier);
        let before = chord.run(earlier);
        if before.fully_pressed() && last.is_press {
            assert(before.step(last.key, true).pressed =~= before.pressed);
        }
    }
}

/// While keys are only pressed, the event that fires `on_press` is the one
/// that brings the last missing key, wherever in the sequence it stands.
pub proof fn lemma_completing_press_fires(chord: ChordView, events: Seq<KeyEvent>, index: int)
    requires
        chord.wf(),
        all_presses(events),
        0 <= index < events.len(),
    ensures
        chord.fires_at(events, index) <==> {
            &&& !chord.keys.subset_of(chord.pressed.union(keys_of(events.take(index))))
            &&& chord.keys.subset_of(chord.pressed.union(keys_of(events.take(index + 1))))
        },
{
    let earlier = events.take(index);
    let through = events.take(index + 1);
    assert(through == earlier.push(events[index]));
    assert(through.drop_last() == earlier);
    assert(all_presses(earlier));
    assert(all_presses(through));
    lemma_press_fires_once_per_ascent(chord, earlier);
    lemma_press_fires_once_per_ascent(chord, through);
    lemma_run_preserves_wf(chord, earlier);
    lemma_run_preserves_wf(chord, through);
    let before = chord.run(earlier);
    let after = chord.run(through);
    assert(after == before.step(events[index].key, true));
    assert(before.fully_pressed() <==> chord.keys.subset_of(
        chord.pressed.union(keys_of(earlier)),
    )) by {
        if chord.keys.subset_of(chord.pressed.union(keys_of(earlier))) {
            assert(before.pressed =~= chord.keys);
        }
    }
    assert(after.fully_pressed() <==> chord.keys.subset_of(
        chord.pressed.union(keys_of(through)),
    )) by {
        if chord.keys.subset_of(chord.pressed.union(keys_of(through))) {
            assert(after.pressed =~= chord.keys);
        }
    }
}

/// Once the chord is complete and keys are only released, the event that
/// fires `on_release` is the first release of a required key, whichever key
/// that is.
pub proof fn lemma_first_release_fires(chord: ChordView, events: Seq<KeyEvent>, index: int)
    requires
        chord.wf(),
        chord.fully_pressed(),
        all_releases(events),
        0 <= index < events.len(),
    ensures
        chord.fires_at(events, index) <==> {
            &&& chord.keys.contains(events[index].key)
            &&& forall|j: int| 0 <= j < index ==> !chord.keys.contains((#[trigger] events[j]).key)
        },
{
    let earlier = events.take(index);
    assert(all_releases(earlier));
    lemma_release_fires_once_per_descent(chord, earlier);
    lemma_run_preserves_wf(chord, earlier);
    let before = chord.run(earlier);
    lemma_fires_characterized(before, events[index].key);
    if forall|j: int| 0 <= j < index ==> !chord.keys.contains((#[trigger] events[j]).key) {
        assert forall|k: u64| chord.keys.contains(k) implies !keys_of(earlier).contains(k) by {
            if keys_of(earlier).contains(k) {
                let j = choose|j: int| 0 <= j < earlier.len() && (#[trigger] earlier[j]).key == k;
                assert(events[j].key == k);
            }
        }
        assert(before.pressed =~= chord.keys);
    }
    if before.fully_pressed() {
        assert forall|j: int| 0 <= j < index implies !chord.keys.contains(
            (#[trigger] events[j]).key,
        ) by {
            assert(earlier[j].key == events[j].key);
            assert(keys_of(earlier).contains(events[j].key));
            if chord.keys.contains(events[j].key) {
                assert(before.pressed.contains(events[j].key));
            }
        }
    }
}

/// The keys of a sequence extended by one event.
pub proof fn lemma_keys_of_push(events: Seq<KeyEvent>, event: KeyEvent)
    ensures
        keys_of(events.push(event)) == keys_of(events).insert(event.key),
{
    let longer = events.push(event);
    assert forall|k: u64| keys_of(longer).contains(k) <==> keys_of(events).insert(
        event.key,
    ).contains(k) by {
        if keys_of(longer).contains(k) {
            let i = choose|i: int| 0 <= i < longer.len() && (#[trigger] longer[i]).key == k;
            if i < events.len() {
                assert(events[i].key == k);
            }
        }
        if keys_of(events).contains(k) {
            let i = choose|i: int| 0 <= i < events.len() && (#[trigger] events[i]).key == k;
            assert(longer[i].key == k);
        }
        if k == event.key {
            assert(longer[events.len() as int].key == k);
        }
    }
    assert(keys_of(longer) =~= keys_of(events).insert(event.key));
}

} // verus!
