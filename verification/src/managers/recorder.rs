//! The mathematical model of the recording state machine, and its laws.
//!
//! A [`RecorderView`] is the state of the machine: who owns the microphone,
//! what has been captured in the current session, and the format of the
//! device. Each operation of the machine is a function on it.

use vstd::prelude::*;

verus! {

/// Sample rate, in hertz, at which a finished recording is handed on.
pub const TARGET_SAMPLE_RATE: u32 = 16000;

/// The most samples that a conversion may take, and the most it may yield:
/// a converter may count them in a signed integer of 32 bits.
pub const MAX_CONVERTED_LEN: usize = 0x7fff_ffff;

/// The number of samples that `len` samples at `from_rate` come to at
/// `to_rate`: `len * to_rate / from_rate`, rounded up.
pub open spec fn converted_len_of(len: nat, from_rate: u32, to_rate: u32) -> nat
    recommends
        from_rate > 0,
{
    ((len * to_rate + from_rate - 1) / (from_rate as int)) as nat
}

/// A conversion of `len` samples from `from_rate` to `to_rate` can be asked
/// for: `from_rate` is not zero, neither what goes in nor what comes out is
/// longer than [`MAX_CONVERTED_LEN`], and the length that comes out can be
/// computed in a machine word.
pub open spec fn convertible(len: nat, from_rate: u32, to_rate: u32) -> bool {
    &&& from_rate > 0
    &&& len <= MAX_CONVERTED_LEN
    &&& len * to_rate + from_rate - 1 <= usize::MAX
    &&& converted_len_of(len, from_rate, to_rate) <= MAX_CONVERTED_LEN
}

/// Model of a [`RecordingState`](crate::managers::audio::RecordingState):
/// the binding id as a sequence of characters.
pub enum RecordingStateView {
    Initializing,
    Idle,
    Recording { binding_id: Seq<char> },
}

/// Model of an
/// [`AudioRecordingManager`](crate::managers::audio::AudioRecordingManager).
pub struct RecorderView<S> {
    pub state: RecordingStateView,
    /// Samples captured so far in the current session, oldest first.
    pub buffer: Seq<S>,
    pub channels: u16,
    pub sample_rate: u32,
}

impl<S> RecorderView<S> {
    /// A recording is active, whoever owns it.
    pub open spec fn is_recording(self) -> bool {
        self.state is Recording
    }

    /// A recording is active and `binding_id` owns it.
    pub open spec fn is_recording_for(self, binding_id: Seq<char>) -> bool {
        self.state == (RecordingStateView::Recording { binding_id })
    }

    /// The manager before the device has been opened.
    pub open spec fn initializing() -> Self {
        RecorderView {
            state: RecordingStateView::Initializing,
            buffer: Seq::empty(),
            channels: 0,
            sample_rate: 0,
        }
    }

    /// The manager as it is once the device has been opened.
    pub open spec fn ready(channels: u16, sample_rate: u32) -> Self {
        RecorderView {
            state: RecordingStateView::Idle,
            buffer: Seq::empty(),
            channels,
            sample_rate,
        }
    }

    /// Effect of the device becoming ready: `Initializing` gives way to
    /// `Idle` with the device's format; later reports change nothing.
    pub open spec fn device_ready(self, channels: u16, sample_rate: u32) -> Self {
        if self.state is Initializing {
            RecorderView { state: RecordingStateView::Idle, channels, sample_rate, ..self }
        } else {
            self
        }
    }

    /// Effect of a start request: from `Idle` the session goes to `binding_id`
    /// with an empty buffer; from any other state nothing changes.
    pub open spec fn start(self, binding_id: Seq<char>) -> Self {
        if self.state is Idle {
            RecorderView {
                state: RecordingStateView::Recording { binding_id },
                buffer: Seq::empty(),
                ..self
            }
        } else {
            self
        }
    }

    /// Effect of a stop request: the owner of the session returns the manager
    /// to `Idle` with an empty buffer; anyone else changes nothing.
    pub open spec fn stop(self, binding_id: Seq<char>) -> Self {
        if self.is_recording_for(binding_id) {
            RecorderView { state: RecordingStateView::Idle, buffer: Seq::empty(), ..self }
        } else {
            self
        }
    }

    /// Effect of one chunk from the device: appended while a recording is
    /// active, dropped otherwise.
    pub open spec fn ingest(self, data: Seq<S>) -> Self {
        if self.is_recording() {
            RecorderView { buffer: self.buffer + data, ..self }
        } else {
            self
        }
    }

    /// Effect of one operation.
    pub open spec fn apply(self, op: RecorderOp<S>) -> Self {
        match op {
            RecorderOp::DeviceReady { channels, sample_rate } => self.device_ready(
                channels,
                sample_rate,
            ),
            RecorderOp::Start { binding_id } => self.start(binding_id),
            RecorderOp::Stop { binding_id } => self.stop(binding_id),
            RecorderOp::AudioData { data } => self.ingest(data),
        }
    }

    /// Effect of `ops`, taken in order.
    pub open spec fn run(self, ops: Seq<RecorderOp<S>>) -> Self
        decreases ops.len(),
    {
        if ops.len() == 0 {
            self
        } else {
            self.run(ops.drop_last()).apply(ops.last())
        }
    }

    /// What the buffer holds can be converted from the device's rate to
    /// [`TARGET_SAMPLE_RATE`].
    pub open spec fn convertible(self) -> bool {
        convertible(self.buffer.len(), self.sample_rate, TARGET_SAMPLE_RATE)
    }

    /// Samples are held only while a recording is active.
    pub open spec fn silent_unless_recording(self) -> bool {
        self.is_recording() || self.buffer.len() == 0
    }
}

/// The operations that change a manager, as values of the model.
pub enum RecorderOp<S> {
    DeviceReady { channels: u16, sample_rate: u32 },
    Start { binding_id: Seq<char> },
    Stop { binding_id: Seq<char> },
    AudioData { data: Seq<S> },
}

/// The samples of the chunks among `ops`, in order.
pub open spec fn fed<S>(ops: Seq<RecorderOp<S>>) -> Seq<S>
    decreases ops.len(),
{
    if ops.len() == 0 {
        Seq::empty()
    } else {
        match ops.last() {
            RecorderOp::AudioData { data } => fed(ops.drop_last()) + data,
            _ => fed(ops.drop_last()),
        }
    }
}

/// Every operation of `ops` is a chunk of audio.
pub open spec fn all_audio<S>(ops: Seq<RecorderOp<S>>) -> bool {
    forall|i: int| 0 <= i < ops.len() ==> (#[trigger] ops[i]) is AudioData
}

/// An operation lengthens the buffer only if a recording is active and the
/// operation is a chunk of audio; otherwise the buffer stays as it is or is
/// emptied.
pub proof fn lemma_buffer_grows_only_while_recording<S>(before: RecorderView<S>, op: RecorderOp<S>)
    ensures
        before.apply(op).buffer.len() > before.buffer.len() ==> before.is_recording()
            && op is AudioData,
        !before.is_recording() ==> before.apply(op).buffer == before.buffer || before.apply(
            op,
        ).buffer == Seq::<S>::empty(),
{
}

/// Whatever is done to a manager, from the moment it is created it holds
/// samples only while a recording is active. In particular the buffer is empty
/// right after a stop that succeeded.
pub proof fn lemma_silent_unless_recording<S>(start: RecorderView<S>, ops: Seq<RecorderOp<S>>)
    requires
        start.silent_unless_recording(),
    ensures
        start.run(ops).silent_unless_recording(),
    decreases ops.len(),
{
    if ops.len() > 0 {
        lemma_silent_unless_recording(start, ops.drop_last());
    }
}

/// A session captures what the device delivers while it lasts, no more and no
/// less: after any number of chunks the buffer holds what it held before,
/// followed by the samples of the chunks in the order of their arrival, and
/// the session is still the same. Outside a session the chunks leave no trace.
pub proof fn lemma_session_captures_what_was_fed<S>(
    before: RecorderView<S>,
    ops: Seq<RecorderOp<S>>,
)
    requires
        all_audio(ops),
    ensures
        before.is_recording() ==> before.run(ops) == (RecorderView {
            buffer: before.buffer + fed(ops),
            ..before
        }),
        !before.is_recording() ==> before.run(ops) == before,
    decreases ops.len(),
{
    if ops.len() > 0 {
        lemma_session_captures_what_was_fed(before, ops.drop_last());
        assert(ops.last() == ops[ops.len() - 1]);
        if before.is_recording() {
            let data = ops.last()->data;
            assert((before.buffer + fed(ops.drop_last())) + data =~= before.buffer + fed(ops));
        }
    } else {
        assert(before.buffer + fed(ops) =~= before.buffer);
    }
}

/// The state changes only along `Initializing -> Idle -> Recording -> Idle`,
/// and the format of the device is fixed once it is ready.
pub proof fn lemma_transitions<S>(before: RecorderView<S>, op: RecorderOp<S>)
    ensures
        ({
            let after = before.apply(op);
            match (before.state, after.state) {
                (RecordingStateView::Initializing, RecordingStateView::Initializing) => true,
                (RecordingStateView::Initializing, RecordingStateView::Idle) => op is DeviceReady,
                (RecordingStateView::Idle, RecordingStateView::Idle) => true,
                (RecordingStateView::Idle, RecordingStateView::Recording { binding_id }) => op
                    == (RecorderOp::<S>::Start { binding_id }),
                (
                    RecordingStateView::Recording { binding_id: owner },
                    RecordingStateView::Recording { binding_id },
                ) => owner == binding_id,
                (RecordingStateView::Recording { binding_id }, RecordingStateView::Idle) => op
                    == (RecorderOp::<S>::Stop { binding_id }),
                _ => false,
            }
        }),
        !(before.state is Initializing) ==> before.apply(op).channels == before.channels
            && before.apply(op).sample_rate == before.sample_rate,
{
}

/// While a session is active a second start is refused, whoever asks: the
/// session keeps its owner and its samples.
pub proof fn lemma_start_is_exclusive<S>(
    before: RecorderView<S>,
    first: Seq<char>,
    second: Seq<char>,
)
    ensures
        before.start(first).start(second) == before.start(first),
{
}

/// Only the owner of a session can stop it.
pub proof fn lemma_stop_needs_owner<S>(before: RecorderView<S>, owner: Seq<char>, other: Seq<char>)
    requires
        before.is_recording_for(owner),
        other != owner,
    ensures
        before.stop(other) == before,
        before.stop(owner).state is Idle,
        before.stop(owner).buffer == Seq::<S>::empty(),
{
}

} // verus!
