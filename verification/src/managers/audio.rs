//! The recording state machine.
//!
//! An [`AudioRecordingManager`] owns the recording state and the sample
//! buffer. The device callback feeds it through
//! [`AudioRecordingManager::on_audio_data`]; chord handlers start and stop a
//! session. Every operation is described by a function on [`RecorderView`],
//! the mathematical model of the manager.

use vstd::prelude::*;
use crate::managers::recorder::{convertible, converted_len_of, RecorderView, RecordingStateView};
pub use crate::managers::recorder::{MAX_CONVERTED_LEN, TARGET_SAMPLE_RATE};

verus! {

/// The converter `resample` yields a recording on every input.
pub open spec fn never_fails<S, F: FnOnce(u32, u32, Vec<S>) -> Option<Vec<S>>>(
    resample: F,
) -> bool {
    forall|from_rate: u32, to_rate: u32, raw: Vec<S>, converted: Option<Vec<S>>|
        call_ensures(resample, (from_rate, to_rate, raw), converted) ==> converted is Some
}

/// The number of samples that converting `len` samples from `from_rate` to
/// `to_rate` yields, or `None` where the conversion cannot be asked for.
pub fn converted_len(len: usize, from_rate: u32, to_rate: u32) -> (converted: Option<usize>)
    ensures
        converted == if convertible(len as nat, from_rate, to_rate) {
            Some(converted_len_of(len as nat, from_rate, to_rate) as usize)
        } else {
            None
        },
{
    if from_rate == 0 || len > MAX_CONVERTED_LEN {
        return None;
    }
    assert(len * to_rate <= 0x7fff_ffff * 0xffff_ffff) by (nonlinear_arith)
        requires
            len <= 0x7fff_ffff,
            to_rate <= 0xffff_ffff,
    ;
    let scaled: u64 = len as u64 * to_rate as u64 + (from_rate as u64 - 1);
    let frames: u64 = scaled / from_rate as u64;
    if scaled <= usize::MAX as u64 && frames <= MAX_CONVERTED_LEN as u64 {
        Some(frames as usize)
    } else {
        None
    }
}

/// Converts `samples` from `from_rate` to `to_rate` with `resample`. Where
/// the conversion can be asked for, `resample` is called once, with the two
/// rates and the samples, and what it returns is returned; a conversion that
/// fails yields `None`. Where the conversion cannot be asked for, `resample`
/// is not called and the result is `None`. Either way a recording that is not
/// converted is dropped.
pub fn convert_recording<S, F>(
    samples: Vec<S>,
    from_rate: u32,
    to_rate: u32,
    resample: F,
) -> (converted: Option<Vec<S>>)
    where F: FnOnce(u32, u32, Vec<S>) -> Option<Vec<S>>
    requires
        convertible(samples@.len(), from_rate, to_rate) ==> call_requires(
            resample,
            (from_rate, to_rate, samples),
        ),
    ensures
        !convertible(samples@.len(), from_rate, to_rate) ==> converted is None,
        convertible(samples@.len(), from_rate, to_rate) ==> call_ensures(
            resample,
            (from_rate, to_rate, samples),
            converted,
        ),
{
    match converted_len(samples.len(), from_rate, to_rate) {
        Some(_) => resample(from_rate, to_rate, samples),
        None => None,
    }
}

/// Who, if anyone, owns the microphone.
#[derive(Debug)]
pub enum RecordingState {
    /// The capture device is not ready yet.
    Initializing,
    /// No recording is active.
    Idle,
    /// The binding `binding_id` owns the session.
    Recording { binding_id: String },
}

impl View for RecordingState {
    type V = RecordingStateView;

    open spec fn view(&self) -> RecordingStateView {
        match *self {
            RecordingState::Initializing => RecordingStateView::Initializing,
            RecordingState::Idle => RecordingStateView::Idle,
            RecordingState::Recording { binding_id } => RecordingStateView::Recording {
                binding_id: binding_id@,
            },
        }
    }
}

impl Clone for RecordingState {
    fn clone(&self) -> (copy: Self)
        ensures
            copy@ == self@,
    {
        match self {
            RecordingState::Initializing => RecordingState::Initializing,
            RecordingState::Idle => RecordingState::Idle,
            RecordingState::Recording { binding_id } => RecordingState::Recording {
                binding_id: binding_id.clone(),
            },
        }
    }
}

impl RecordingState {
    /// Whether this state is `Recording` for exactly `binding_id`.
    pub fn is_recording_for(&self, binding_id: &str) -> (yes: bool)
        ensures
            yes == (self@ == RecordingStateView::Recording { binding_id: binding_id@ }),
    {
        match self {
            RecordingState::Recording { binding_id: active_id } => {
                let wanted = binding_id.to_owned();
                *active_id == wanted
            },
            _ => false,
        }
    }
}

/// The recording state machine together with its sample buffer.
pub struct AudioRecordingManager<S> {
    state: RecordingState,
    buffer: Vec<S>,
    channels: u16,
    sample_rate: u32,
}

impl<S> View for AudioRecordingManager<S> {
    type V = RecorderView<S>;

    closed spec fn view(&self) -> RecorderView<S> {
        RecorderView {
            state: self.state@,
            buffer: self.buffer@,
            channels: self.channels,
            sample_rate: self.sample_rate,
        }
    }
}

impl<S: Copy> AudioRecordingManager<S> {
    /// A manager whose device is not ready yet: every start is refused until
    /// [`AudioRecordingManager::device_ready`] has been called.
    pub fn initializing() -> (manager: Self)
        ensures
            manager@ == RecorderView::<S>::initializing(),
    {
        AudioRecordingManager {
            state: RecordingState::Initializing,
            buffer: Vec::new(),
            channels: 0,
            sample_rate: 0,
        }
    }

    /// Records that the device is ready and delivers `channels` interleaved
    /// channels at `sample_rate` hertz. Only the first report counts.
    pub fn device_ready(&mut self, channels: u16, sample_rate: u32)
        ensures
            final(self)@ == old(self)@.device_ready(channels, sample_rate),
    {
        match self.state {
            RecordingState::Initializing => {
                self.state = RecordingState::Idle;
                self.channels = channels;
                self.sample_rate = sample_rate;
            },
            _ => {},
        }
    }

    /// A manager for a device that delivers `channels` interleaved channels at
    /// `sample_rate` hertz. It starts out `Idle` with an empty buffer.
    pub fn new(channels: u16, sample_rate: u32) -> (manager: Self)
        ensures
            manager@ == RecorderView::<S>::ready(channels, sample_rate),
    {
        AudioRecordingManager {
            state: RecordingState::Idle,
            buffer: Vec::new(),
            channels,
            sample_rate,
        }
    }

    /// Starts a session for `binding_id` if and only if the manager is `Idle`.
    /// A refused request changes nothing.
    pub fn try_start_recording(&mut self, binding_id: &str) -> (started: bool)
        ensures
            started == (old(self)@.state is Idle),
            final(self)@ == old(self)@.start(binding_id@),
            !started ==> final(self)@ == old(self)@,
    {
        match self.state {
            RecordingState::Idle => {
                self.buffer.clear();
                self.state = RecordingState::Recording { binding_id: binding_id.to_owned() };
                true
            },
            _ => false,
        }
    }

    /// Ends the session owned by `binding_id` and hands out what was captured,
    /// at the device's own rate. Any other caller gets `None` and changes
    /// nothing.
    pub fn take_recording(&mut self, binding_id: &str) -> (taken: Option<Vec<S>>)
        ensures
            final(self)@ == old(self)@.stop(binding_id@),
            taken is Some <==> old(self)@.is_recording_for(binding_id@),
            taken is Some ==> taken->0@ == old(self)@.buffer,
            taken is Some ==> final(self)@.state is Idle && final(self)@.buffer.len() == 0,
            taken is None ==> final(self)@ == old(self)@,
    {
        if self.state.is_recording_for(binding_id) {
            self.state = RecordingState::Idle;
            let mut raw: Vec<S> = Vec::new();
            core::mem::swap(&mut self.buffer, &mut raw);
            Some(raw)
        } else {
            None
        }
    }

    /// Ends the session owned by `binding_id` and returns the recording as
    /// [`convert_recording`] converts it from the device's rate to
    /// [`TARGET_SAMPLE_RATE`] with `resample`. The session ends and the
    /// buffer is emptied whether or not the recording is converted; one that
    /// is not is dropped, and the result is `None`. Any other caller gets
    /// `None`, changes nothing, and `resample` is not called.
    pub fn stop_recording<F>(&mut self, binding_id: &str, resample: F) -> (recording: Option<
        Vec<S>,
    >)
        where F: FnOnce(u32, u32, Vec<S>) -> Option<Vec<S>>
        requires
            old(self)@.is_recording_for(binding_id@) && old(self)@.convertible() ==> {
                forall|raw: Vec<S>|
                    raw@ == old(self)@.buffer ==> call_requires(
                        resample,
                        (old(self)@.sample_rate, TARGET_SAMPLE_RATE, raw),
                    )
            },
        ensures
            final(self)@ == old(self)@.stop(binding_id@),
            !old(self)@.is_recording_for(binding_id@) ==> recording is None
                && final(self)@ == old(self)@,
            old(self)@.is_recording_for(binding_id@) ==> final(self)@.state is Idle
                && final(self)@.buffer.len() == 0,
            old(self)@.is_recording_for(binding_id@) && !old(self)@.convertible() ==> recording
                is None,
            old(self)@.is_recording_for(binding_id@) && old(self)@.convertible() ==> {
                exists|raw: Vec<S>|
                    raw@ == old(self)@.buffer && call_ensures(
                        resample,
                        (old(self)@.sample_rate, TARGET_SAMPLE_RATE, raw),
                        recording,
                    )
            },
            never_fails(resample) && old(self)@.convertible() ==> (recording is Some
                <==> old(self)@.is_recording_for(binding_id@)),
    {
        let from_rate = self.sample_rate;
        match self.take_recording(binding_id) {
            Some(raw) => convert_recording(raw, from_rate, TARGET_SAMPLE_RATE, resample),
            None => None,
        }
    }

    /// The device callback: appends `data` while a recording is active, for
    /// whichever binding, and drops it otherwise.
    pub fn on_audio_data(&mut self, data: &[S])
        ensures
            final(self)@ == old(self)@.ingest(data@),
    {
        match self.state {
            RecordingState::Recording { .. } => {
                let mut i: usize = 0;
                while i < data.len()
                    invariant
                        i <= data.len(),
                        self.state == old(self).state,
                        self.channels == old(self).channels,
                        self.sample_rate == old(self).sample_rate,
                        self.buffer@ == old(self).buffer@ + data@.subrange(0, i as int),
                    decreases data.len() - i,
                {
                    self.buffer.push(data[i]);
                    i += 1;
                }
                assert(data@.subrange(0, i as int) == data@);
            },
            _ => {},
        }
    }

    /// The number of interleaved channels that the device delivers.
    pub fn channels(&self) -> (channels: u16)
        ensures
            channels == self@.channels,
    {
        self.channels
    }

    /// The rate, in hertz, at which the device delivers samples.
    pub fn sample_rate(&self) -> (sample_rate: u32)
        ensures
            sample_rate == self@.sample_rate,
    {
        self.sample_rate
    }

    /// The number of samples captured so far in the current session.
    pub fn buffered_len(&self) -> (len: usize)
        ensures
            len == self@.buffer.len(),
    {
        self.buffer.len()
    }

    /// A snapshot of the current state.
    pub fn get_current_recording_state(&self) -> (state: RecordingState)
        ensures
            state@ == self@.state,
    {
        self.state.clone()
    }
}

} // verus!
