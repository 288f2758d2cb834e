//! The key-chord dispatcher.
//!
//! A [`KeyBindingManager`] holds the registered bindings and takes the events
//! of the input stream one at a time. Every binding follows the event on its
//! own, and the manager reports which of them fire: `on_press` after a press,
//! `on_release` after a release. Handlers are values that the manager keeps
//! and never looks into; [`KeyBindingManager::dispatch`] fires them through a
//! function of the caller. Keys are plain codes, so any source of key events
//! can feed the manager.

use std::collections::HashSet;
use vstd::prelude::*;
use vstd::set_lib::{lemma_len_subset, lemma_subset_equality};
use vstd::std_specs::hash::group_hash_axioms;
use crate::managers::chord::{lemma_run_preserves_keys, lemma_run_preserves_wf};
use crate::managers::chord::{ChordView, KeyEvent};

verus! {

broadcast use group_hash_axioms;

/// Model of a [`KeyBinding`].
pub struct KeyBindingView<H> {
    pub id: Seq<char>,
    pub keys: Set<u64>,
    pub on_press: H,
    pub on_release: H,
    pub pressed: Set<u64>,
}

impl<H> KeyBindingView<H> {
    /// The chord of the binding: its required keys and those now held.
    pub open spec fn chord(self) -> ChordView {
        ChordView { keys: self.keys, pressed: self.pressed }
    }

    /// The held keys are among the required ones, of which there are finitely
    /// many.
    pub open spec fn wf(self) -> bool {
        self.chord().wf()
    }

    /// The binding after one event: its chord takes the step, the rest stays.
    pub open spec fn step(self, key: u64, is_press: bool) -> Self {
        KeyBindingView { pressed: self.chord().step(key, is_press).pressed, ..self }
    }

    /// The handler that an event fires: `on_press` for a press, `on_release`
    /// for a release.
    pub open spec fn handler(self, is_press: bool) -> H {
        if is_press {
            self.on_press
        } else {
            self.on_release
        }
    }

    /// The binding as it is registered: it requires the keys that occur in
    /// `keys`, and none of them is held.
    pub open spec fn registered(id: Seq<char>, keys: Seq<u64>, on_press: H, on_release: H) -> Self {
        KeyBindingView { id, keys: keys.to_set(), on_press, on_release, pressed: Set::empty() }
    }
}

/// A chord with an id and two handler slots. The library keeps the handlers
/// and never looks into them.
pub struct KeyBinding<H> {
    id: String,
    keys: HashSet<u64>,
    on_press: H,
    on_release: H,
    currently_pressed: HashSet<u64>,
}

impl<H> View for KeyBinding<H> {
    type V = KeyBindingView<H>;

    closed spec fn view(&self) -> KeyBindingView<H> {
        KeyBindingView {
            id: self.id@,
            keys: self.keys@,
            on_press: self.on_press,
            on_release: self.on_release,
            pressed: self.currently_pressed@,
        }
    }
}

impl<H> KeyBinding<H> {
    /// The invariant of a binding: see [`KeyBindingView::wf`].
    pub open spec fn wf(&self) -> bool {
        self@.wf()
    }

    /// A binding that requires the keys listed in `keys`, none of them held.
    /// A key that is listed more than once is required once; a binding
    /// without keys never fires.
    pub fn new(id: String, keys: Vec<u64>, on_press: H, on_release: H) -> (binding: Self)
        ensures
            binding.wf(),
            binding@ == KeyBindingView::registered(id@, keys@, on_press, on_release),
    {
        let mut required: HashSet<u64> = HashSet::new();
        let mut i: usize = 0;
        while i < keys.len()
            invariant
                i <= keys.len(),
                required@ == keys@.subrange(0, i as int).to_set(),
            decreases keys.len() - i,
        {
            proof {
                assert(keys@.subrange(0, i + 1) == keys@.subrange(0, i as int).push(
                    keys@[i as int],
                ));
                keys@.subrange(0, i as int).lemma_push_to_set_commute(keys@[i as int]);
            }
            required.insert(keys[i]);
            i += 1;
        }
        proof {
            assert(keys@.subrange(0, i as int) == keys@);
            vstd::seq_lib::seq_to_set_is_finite(keys@);
        }
        KeyBinding { id, keys: required, on_press, on_release, currently_pressed: HashSet::new() }
    }

    /// Takes one event. A key that the binding does not require changes
    /// nothing. Otherwise the key is added to the held keys on a press and
    /// taken from them on a release. The result says whether a handler fires:
    /// `on_press` when a press completes the chord, `on_release` when a
    /// release breaks the complete chord.
    pub fn handle_event(&mut self, key: u64, is_press: bool) -> (fired: bool)
        requires
            old(self).wf(),
        ensures
            final(self).wf(),
            final(self)@ == old(self)@.step(key, is_press),
            fired == old(self)@.chord().fires(key, is_press),
    {
        if !self.keys.contains(&key) {
            return false;
        }
        proof {
            lemma_len_subset(self.currently_pressed@, self.keys@);
        }
        let was_full = self.currently_pressed.len() == self.keys.len();
        proof {
            if was_full {
                lemma_subset_equality(self.currently_pressed@, self.keys@);
            }
        }
        if is_press {
            self.currently_pressed.insert(key);
            proof {
                lemma_len_subset(self.currently_pressed@, self.keys@);
            }
            let now_full = self.currently_pressed.len() == self.keys.len();
            proof {
                if now_full {
                    lemma_subset_equality(self.currently_pressed@, self.keys@);
                }
            }
            !was_full && now_full
        } else {
            self.currently_pressed.remove(&key);
            was_full
        }
    }

    /// The id under which the binding was registered.
    pub fn id(&self) -> (id: &str)
        ensures
            id@ == self@.id,
    {
        self.id.as_str()
    }

    /// The handler that fires when the chord becomes complete.
    pub fn on_press(&self) -> (handler: &H)
        ensures
            *handler == self@.on_press,
    {
        &self.on_press
    }

    /// The handler that fires when the complete chord loses a key.
    pub fn on_release(&self) -> (handler: &H)
        ensures
            *handler == self@.on_release,
    {
        &self.on_release
    }

    /// Whether the chord requires `key`.
    pub fn uses_key(&self, key: u64) -> (required: bool)
        ensures
            required == self@.keys.contains(key),
    {
        self.keys.contains(&key)
    }

    /// Whether every required key is held.
    pub fn is_fully_pressed(&self) -> (full: bool)
        requires
            self.wf(),
        ensures
            full == self@.chord().fully_pressed(),
    {
        proof {
            lemma_len_subset(self.currently_pressed@, self.keys@);
            if self.currently_pressed@.len() == self.keys@.len() {
                lemma_subset_equality(self.currently_pressed@, self.keys@);
            }
        }
        self.currently_pressed.len() == self.keys.len()
    }
}

/// The handles that every handler is given: one to the recorder and one to
/// the transcription service. The library carries them and never looks into
/// them.
pub struct BindingContext<R, T> {
    pub recording_manager: R,
    pub transcription_manager: T,
}

/// Model of a [`KeyBindingManager`]: the bindings in the order of their
/// registration, and the context.
pub struct KeyBindingManagerView<R, T, H> {
    pub bindings: Seq<KeyBindingView<H>>,
    pub context: BindingContext<R, T>,
}

impl<R, T, H> KeyBindingManagerView<R, T, H> {
    /// Every binding is well formed.
    pub open spec fn wf(self) -> bool {
        forall|i: int| 0 <= i < self.bindings.len() ==> (#[trigger] self.bindings[i]).wf()
    }

    /// The manager after one event: every binding takes the step on its own.
    pub open spec fn step(self, key: u64, is_press: bool) -> Self {
        KeyBindingManagerView {
            bindings: Seq::new(self.bindings.len(), |i: int| self.bindings[i].step(key, is_press)),
            ..self
        }
    }

    /// The manager after `events`, taken in order.
    pub open spec fn run(self, events: Seq<KeyEvent>) -> Self
        decreases events.len(),
    {
        if events.len() == 0 {
            self
        } else {
            self.run(events.drop_last()).step(events.last().key, events.last().is_press)
        }
    }

    /// The positions, in ascending order, of those of the first `n` bindings
    /// that fire on the event.
    pub open spec fn fired_among(self, key: u64, is_press: bool, n: int) -> Seq<usize>
        decreases n,
    {
        if n <= 0 {
            Seq::empty()
        } else {
            let before = self.fired_among(key, is_press, n - 1);
            if self.bindings[n - 1].chord().fires(key, is_press) {
                before.push((n - 1) as usize)
            } else {
                before
            }
        }
    }

    /// The positions, in ascending order, of the bindings that fire on the
    /// event.
    pub open spec fn fired(self, key: u64, is_press: bool) -> Seq<usize> {
        self.fired_among(key, is_press, self.bindings.len() as int)
    }
}

/// Bindings do not interfere: over any sequence of events each binding ends
/// up as if it had been alone with the events, whatever keys it shares with
/// others. The bindings stay well formed, and the context stays as it is.
pub proof fn lemma_bindings_are_independent<R, T, H>(
    manager: KeyBindingManagerView<R, T, H>,
    events: Seq<KeyEvent>,
)
    ensures
        manager.run(events).context == manager.context,
        manager.run(events).bindings.len() == manager.bindings.len(),
        forall|i: int|
            0 <= i < manager.bindings.len() ==> (#[trigger] manager.run(events).bindings[i])
                == (KeyBindingView {
                pressed: manager.bindings[i].chord().run(events).pressed,
                ..manager.bindings[i]
            }),
        manager.wf() ==> manager.run(events).wf(),
    decreases events.len(),
{
    if events.len() > 0 {
        let earlier = events.drop_last();
        lemma_bindings_are_independent(manager, earlier);
        assert forall|i: int| 0 <= i < manager.bindings.len() implies (#[trigger] manager.run(
            events,
        ).bindings[i]) == (KeyBindingView {
            pressed: manager.bindings[i].chord().run(events).pressed,
            ..manager.bindings[i]
        }) by {
            lemma_run_preserves_keys(manager.bindings[i].chord(), earlier);
            assert(manager.run(earlier).bindings[i].chord() == manager.bindings[i].chord().run(
                earlier,
            ));
        }
    }
    if manager.wf() {
        assert forall|i: int| 0 <= i < manager.run(events).bindings.len() implies (
        #[trigger] manager.run(events).bindings[i]).wf() by {
            assert(manager.bindings[i].wf());
            lemma_run_preserves_wf(manager.bindings[i].chord(), events);
            lemma_run_preserves_keys(manager.bindings[i].chord(), events);
        }
    }
}

/// The bindings reported for an event are those that fire on it, each once,
/// in the order of their registration.
pub proof fn lemma_fired_characterized<R, T, H>(
    manager: KeyBindingManagerView<R, T, H>,
    key: u64,
    is_press: bool,
)
    requires
        manager.bindings.len() <= usize::MAX,
    ensures
        forall|i: int|
            0 <= i < manager.bindings.len() ==> (manager.fired(key, is_press).contains(i as usize)
                <==> (#[trigger] manager.bindings[i]).chord().fires(key, is_press)),
        forall|a: int|
            0 <= a < manager.fired(key, is_press).len() ==> (#[trigger] manager.fired(
                key,
                is_press,
            )[a]) < manager.bindings.len(),
        forall|a: int, b: int|
            0 <= a < b < manager.fired(key, is_press).len() ==> manager.fired(key, is_press)[a]
                < manager.fired(key, is_press)[b],
{
    lemma_fired_among_characterized(manager, key, is_press, manager.bindings.len() as int);
}

proof fn lemma_fired_among_characterized<R, T, H>(
    manager: KeyBindingManagerView<R, T, H>,
    key: u64,
    is_press: bool,
    n: int,
)
    requires
        0 <= n <= manager.bindings.len() <= usize::MAX,
    ensures
        forall|i: int|
            0 <= i < manager.bindings.len() ==> (manager.fired_among(key, is_press, n).contains(
                i as usize,
            ) <==> i < n && (#[trigger] manager.bindings[i]).chord().fires(key, is_press)),
        forall|a: int|
            0 <= a < manager.fired_among(key, is_press, n).len() ==> (#[trigger] manager.fired_among(
                key,
                is_press,
                n,
            )[a]) < n,
        forall|a: int, b: int|
            0 <= a < b < manager.fired_among(key, is_press, n).len() ==> manager.fired_among(
                key,
                is_press,
                n,
            )[a] < manager.fired_among(key, is_press, n)[b],
    decreases n,
{
    if n > 0 {
        lemma_fired_among_characterized(manager, key, is_press, n - 1);
        let before = manager.fired_among(key, is_press, n - 1);
        let now = manager.fired_among(key, is_press, n);
        assert forall|i: int| 0 <= i < manager.bindings.len() implies (now.contains(i as usize)
            <==> i < n && (#[trigger] manager.bindings[i]).chord().fires(key, is_press)) by {
            if manager.bindings[n - 1].chord().fires(key, is_press) {
                assert(now == before.push((n - 1) as usize));
                assert(now[now.len() - 1] == (n - 1) as usize);
                if now.contains(i as usize) {
                    let a = choose|a: int| 0 <= a < now.len() && now[a] == i as usize;
                    if a < before.len() {
                        assert(before[a] == i as usize);
                    }
                }
                if before.contains(i as usize) {
                    let a = choose|a: int| 0 <= a < before.len() && before[a] == i as usize;
                    assert(now[a] == i as usize);
                }
            }
        }
    }
}

/// The registered bindings and the context of their handlers.
pub struct KeyBindingManager<R, T, H> {
    bindings: Vec<KeyBinding<H>>,
    context: BindingContext<R, T>,
}

impl<R, T, H> View for KeyBindingManager<R, T, H> {
    type V = KeyBindingManagerView<R, T, H>;

    closed spec fn view(&self) -> KeyBindingManagerView<R, T, H> {
        KeyBindingManagerView {
            bindings: Seq::new(self.bindings@.len(), |i: int| self.bindings@[i]@),
            context: self.context,
        }
    }
}

impl<R, T, H> KeyBindingManager<R, T, H> {
    /// The invariant of a manager: see [`KeyBindingManagerView::wf`].
    pub open spec fn wf(&self) -> bool {
        self@.wf()
    }

    /// A manager without bindings, whose handlers will be given the two
    /// handles.
    pub fn new(recording_manager: R, transcription_manager: T) -> (manager: Self)
        ensures
            manager.wf(),
            manager@.bindings == Seq::<KeyBindingView<H>>::empty(),
            manager@.context == (BindingContext { recording_manager, transcription_manager }),
    {
        KeyBindingManager {
            bindings: Vec::new(),
            context: BindingContext { recording_manager, transcription_manager },
        }
    }

    /// Adds a binding behind those already registered. Nothing is compared
    /// with the bindings that are there: two bindings may share keys, or an
    /// id.
    pub fn register(&mut self, id: String, keys: Vec<u64>, on_press: H, on_release: H)
        requires
            old(self).wf(),
        ensures
            final(self).wf(),
            final(self)@.bindings == old(self)@.bindings.push(
                KeyBindingView::registered(id@, keys@, on_press, on_release),
            ),
            final(self)@.context == old(self)@.context,
    {
        let binding = KeyBinding::new(id, keys, on_press, on_release);
        self.bindings.push(binding);
        proof {
            assert(self@.bindings =~= old(self)@.bindings.push(binding@));
            assert forall|i: int| 0 <= i < self@.bindings.len() implies (
            #[trigger] self@.bindings[i]).wf() by {
                if i < old(self)@.bindings.len() {
                    assert(old(self)@.bindings[i].wf());
                }
            }
        }
    }

    /// The number of registered bindings.
    pub fn len(&self) -> (len: usize)
        ensures
            len == self@.bindings.len(),
    {
        self.bindings.len()
    }

    /// The binding registered at position `index`, counting from zero.
    pub fn binding(&self, index: usize) -> (binding: Option<&KeyBinding<H>>)
        ensures
            binding is Some <==> index < self@.bindings.len(),
            binding is Some ==> binding->0@ == self@.bindings[index as int],
            binding is Some && self.wf() ==> binding->0.wf(),
    {
        proof {
            if index < self.bindings@.len() && self.wf() {
                assert(self@.bindings[index as int].wf());
            }
        }
        if index < self.bindings.len() {
            Some(&self.bindings[index])
        } else {
            None
        }
    }

    /// The handles that handlers are given.
    pub fn context(&self) -> (context: &BindingContext<R, T>)
        ensures
            *context == self@.context,
    {
        &self.context
    }

    /// Takes one event of the input stream. Every binding takes the event as
    /// [`KeyBinding::handle_event`] says, independently of the others. The
    /// result lists the positions of the bindings of which a handler fires,
    /// in the order of registration: `on_press` where `is_press`, `on_release`
    /// otherwise.
    pub fn handle_event(&mut self, key: u64, is_press: bool) -> (fired: Vec<usize>)
        requires
            old(self).wf(),
        ensures
            final(self).wf(),
            final(self)@ == old(self)@.step(key, is_press),
            fired@ == old(self)@.fired(key, is_press),
            forall|a: int|
                0 <= a < fired@.len() ==> (#[trigger] fired@[a]) < old(self)@.bindings.len(),
    {
        proof {
            assert(self.bindings.len() == self.bindings@.len());
            lemma_fired_characterized(old(self)@, key, is_press);
            assert forall|j: int| 0 <= j < self.bindings@.len() implies (
            #[trigger] self.bindings@[j]).wf() by {
                assert(self@.bindings[j].wf());
            }
        }
        let mut fired: Vec<usize> = Vec::new();
        let mut i: usize = 0;
        while i < self.bindings.len()
            invariant
                i <= self.bindings@.len(),
                forall|j: int|
                    0 <= j < self.bindings@.len() ==> (#[trigger] self.bindings@[j]).wf(),
                self.context == old(self).context,
                self.bindings@.len() == old(self).bindings@.len(),
                forall|j: int|
                    0 <= j < i ==> (#[trigger] self.bindings@[j])@ == old(self).bindings@[j]@.step(
                        key,
                        is_press,
                    ),
                forall|j: int|
                    i <= j < self.bindings@.len() ==> (#[trigger] self.bindings@[j])
                        == old(self).bindings@[j],
                fired@ == old(self)@.fired_among(key, is_press, i as int),
            decreases self.bindings@.len() - i,
        {
            if self.bindings[i].handle_event(key, is_press) {
                fired.push(i);
            }
            i += 1;
        }
        proof {
            assert(self@.bindings =~= old(self)@.step(key, is_press).bindings);
            assert forall|j: int| 0 <= j < self@.bindings.len() implies (
            #[trigger] self@.bindings[j]).wf() by {
                assert(self.bindings@[j].wf());
            }
        }
        fired
    }

    /// Takes one event of the input stream as [`KeyBindingManager::handle_event`]
    /// does, and then fires the handlers: for each binding reported, in the
    /// order of registration, `invoke` is called once with the handler of
    /// that binding, `on_press` where `is_press` and `on_release` otherwise,
    /// and with the context.
    pub fn dispatch<F>(&mut self, key: u64, is_press: bool, invoke: F) -> (fired: Vec<usize>)
        where F: Fn(&H, &BindingContext<R, T>)
        requires
            old(self).wf(),
            forall|handler: &H, context: &BindingContext<R, T>|
                call_requires(invoke, (handler, context)),
        ensures
            final(self).wf(),
            final(self)@ == old(self)@.step(key, is_press),
            fired@ == old(self)@.fired(key, is_press),
            forall|a: int|
                0 <= a < fired@.len() ==> (#[trigger] fired@[a]) < old(self)@.bindings.len(),
            forall|a: int|
                0 <= a < fired@.len() ==> call_ensures(
                    invoke,
                    (
                        &old(self)@.bindings[(#[trigger] fired@[a]) as int].handler(is_press),
                        &old(self)@.context,
                    ),
                    (),
                ),
    {
        let fired = self.handle_event(key, is_press);
        let mut a: usize = 0;
        while a < fired.len()
            invariant
                a <= fired@.len(),
                self@ == old(self)@.step(key, is_press),
                forall|b: int|
                    0 <= b < fired@.len() ==> (#[trigger] fired@[b]) < old(self)@.bindings.len(),
                forall|handler: &H, context: &BindingContext<R, T>|
                    call_requires(invoke, (handler, context)),
                forall|b: int|
                    0 <= b < a ==> call_ensures(
                        invoke,
                        (
                            &old(self)@.bindings[(#[trigger] fired@[b]) as int].handler(is_press),
                            &old(self)@.context,
                        ),
                        (),
                    ),
            decreases fired@.len() - a,
        {
            match self.binding(fired[a]) {
                Some(binding) => {
                    let handler = if is_press {
                        binding.on_press()
                    } else {
                        binding.on_release()
                    };
                    invoke(handler, &self.context);
                },
                None => {},
            }
            a += 1;
        }
        fired
    }
}

} // verus!
