//! Voice-activity stop decision: the pure state machine that decides when a
//! session has gone quiet long enough to stop on its own.
//!
//! The stop is allowed only after speech has been seen; once it has, a run of
//! silence of at least the threshold stops the session, but never before the
//! minimum session length (protection against accidental triggers).

use vstd::prelude::*;

verus! {

/// VAD frame length: 30 ms at 16 kHz (480 samples).
pub const VAD_FRAME_SAMPLES: usize = 480;

/// Frame duration in ms: the time step of the stop decision.
pub const VAD_FRAME_MS: u32 = 30;

/// Default silence threshold in ms (`vadSilenceMs`).
pub const DEFAULT_SILENCE_MS: u32 = 700;

/// Minimum session length in ms below which no stop is decided.
pub const MIN_SESSION_MS: u32 = 500;

/// Smallest allowed `vadSilenceMs`.
pub const SILENCE_MS_MIN: u32 = 200;

/// Largest allowed `vadSilenceMs`.
pub const SILENCE_MS_MAX: u32 = 5000;

/// Stop decision after one frame.
#[derive(Debug, Clone, Copy, PartialEq, Eq, Structural)]
pub enum StopDecision {
    Continue,
    Stop,
}

/// State of the silence tracker.
#[derive(Debug, Clone, Copy, PartialEq, Eq, Structural)]
pub struct TrackerState {
    pub silence_ms: u32,
    pub min_session_ms: u32,
    pub seen_speech: bool,
    pub silence_run_ms: u32,
    pub elapsed_ms: u32,
}

/// One frame: the new state and the decision.
pub open spec fn tracker_step(s: TrackerState, speech: bool) -> (TrackerState, StopDecision) {
    let elapsed = (s.elapsed_ms + VAD_FRAME_MS) as u32;
    let seen = s.seen_speech || speech;
    let run = if speech {
        0u32
    } else if s.seen_speech {
        (s.silence_run_ms + VAD_FRAME_MS) as u32
    } else {
        s.silence_run_ms
    };
    let next = TrackerState {
        silence_ms: s.silence_ms,
        min_session_ms: s.min_session_ms,
        seen_speech: seen,
        silence_run_ms: run,
        elapsed_ms: elapsed,
    };
    let d = if seen && run >= s.silence_ms && elapsed >= s.min_session_ms {
        StopDecision::Stop
    } else {
        StopDecision::Continue
    };
    (next, d)
}

/// Silence stop tracker (see the module documentation).
pub struct SilenceStopTracker {
    st: TrackerState,
}

impl View for SilenceStopTracker {
    type V = TrackerState;

    closed spec fn view(&self) -> TrackerState {
        self.st
    }
}

impl SilenceStopTracker {
    #[verifier::type_invariant]
    spec fn inv(self) -> bool {
        self.st.silence_run_ms <= self.st.elapsed_ms
    }

    pub fn new(silence_ms: u32, min_session_ms: u32) -> (r: SilenceStopTracker)
        ensures
            r@ == (TrackerState {
                silence_ms,
                min_session_ms,
                seen_speech: false,
                silence_run_ms: 0,
                elapsed_ms: 0,
            }),
    {
        SilenceStopTracker {
            st: TrackerState {
                silence_ms,
                min_session_ms,
                seen_speech: false,
                silence_run_ms: 0,
                elapsed_ms: 0,
            },
        }
    }

    /// Feeds one frame's speech verdict; returns whether to stop.
    pub fn push(&mut self, speech: bool) -> (r: StopDecision)
        requires
            old(self)@.elapsed_ms + VAD_FRAME_MS <= u32::MAX,
        ensures
            (final(self)@, r) == tracker_step(old(self)@, speech),
    {
        proof {
            use_type_invariant(&*self);
        }
        let mut st = self.st;
        st.elapsed_ms = st.elapsed_ms + VAD_FRAME_MS;
        if speech {
            st.seen_speech = true;
            st.silence_run_ms = 0;
        } else if st.seen_speech {
            st.silence_run_ms = st.silence_run_ms + VAD_FRAME_MS;
        }
        self.st = st;
        if st.seen_speech && st.silence_run_ms >= st.silence_ms && st.elapsed_ms >= st.min_session_ms {
            StopDecision::Stop
        } else {
            StopDecision::Continue
        }
    }

    pub fn seen_speech(&self) -> (r: bool)
        ensures
            r == self@.seen_speech,
    {
        self.st.seen_speech
    }

    pub fn elapsed_ms(&self) -> (r: u32)
        ensures
            r == self@.elapsed_ms,
    {
        self.st.elapsed_ms
    }
}

/// The tracker never stops a session in which no speech was seen, never
/// before the minimum session length, and only after a silence run of at
/// least the threshold.
pub proof fn law_stop_needs_speech_time_and_silence(s: TrackerState, speech: bool)
    requires
        s.elapsed_ms + VAD_FRAME_MS <= u32::MAX,
        s.silence_run_ms <= s.elapsed_ms,
    ensures
        tracker_step(s, speech).1 == StopDecision::Stop ==> {
            &&& s.seen_speech || speech
            &&& tracker_step(s, speech).0.elapsed_ms >= s.min_session_ms
            &&& tracker_step(s, speech).0.silence_run_ms >= s.silence_ms
        },
        !s.seen_speech && !speech ==> tracker_step(s, speech).1 == StopDecision::Continue,
        tracker_step(s, speech).0.silence_run_ms <= tracker_step(s, speech).0.elapsed_ms,
{
}

/// A speech frame restarts the silence run: it stops only with a zero threshold.
pub proof fn law_speech_resets_silence(s: TrackerState)
    requires
        s.elapsed_ms + VAD_FRAME_MS <= u32::MAX,
    ensures
        tracker_step(s, true).0.silence_run_ms == 0,
        tracker_step(s, true).1 == StopDecision::Stop ==> s.silence_ms == 0,
{
}

/// The tracker's state after a run of frames, in order.
pub open spec fn tracker_after(s: TrackerState, speech: Seq<bool>) -> TrackerState
    decreases speech.len(),
{
    if speech.len() == 0 {
        s
    } else {
        tracker_step(tracker_after(s, speech.drop_last()), speech.last()).0
    }
}

/// Some frame of the run carried speech.
pub open spec fn any_speech(speech: Seq<bool>) -> bool {
    exists|i: int| 0 <= i < speech.len() && speech[i]
}

/// The number of silent frames after the last speech frame (or in all).
pub open spec fn trailing_silence(speech: Seq<bool>) -> nat
    decreases speech.len(),
{
    if speech.len() == 0 {
        0
    } else if speech.last() {
        0
    } else {
        trailing_silence(speech.drop_last()) + 1
    }
}

/// A fresh tracker.
pub open spec fn fresh_tracker(silence_ms: u32, min_session_ms: u32) -> TrackerState {
    TrackerState { silence_ms, min_session_ms, seen_speech: false, silence_run_ms: 0, elapsed_ms: 0 }
}

proof fn lemma_tracker_after(silence_ms: u32, min_session_ms: u32, speech: Seq<bool>)
    requires
        30 * speech.len() <= u32::MAX,
    ensures
        tracker_after(fresh_tracker(silence_ms, min_session_ms), speech).elapsed_ms == 30
            * speech.len(),
        tracker_after(fresh_tracker(silence_ms, min_session_ms), speech).seen_speech == any_speech(
            speech,
        ),
        tracker_after(fresh_tracker(silence_ms, min_session_ms), speech).silence_run_ms == if any_speech(
            speech,
        ) {
            30 * trailing_silence(speech)
        } else {
            0
        },
        tracker_after(fresh_tracker(silence_ms, min_session_ms), speech).silence_ms == silence_ms,
        tracker_after(fresh_tracker(silence_ms, min_session_ms), speech).min_session_ms
            == min_session_ms,
        trailing_silence(speech) <= speech.len(),
    decreases speech.len(),
{
    if speech.len() > 0 {
        let prev = speech.drop_last();
        lemma_tracker_after(silence_ms, min_session_ms, prev);
        if any_speech(prev) {
            let i = choose|i: int| 0 <= i < prev.len() && prev[i];
            assert(speech[i]);
        }
        if speech.last() {
            assert(speech[speech.len() - 1]);
        }
        if any_speech(speech) && !speech.last() {
            let i = choose|i: int| 0 <= i < speech.len() && speech[i];
            assert(prev[i]);
        }
        if !any_speech(prev) && !speech.last() {
            assert forall|i: int| 0 <= i < speech.len() implies !speech[i] by {
                if i < prev.len() {
                    assert(prev[i] == speech[i]);
                }
            }
        }
    }
}

/// Over a whole run of frames from a fresh tracker: each frame adds 30 ms,
/// speech is seen once any frame carried it, and the last frame's decision
/// is a stop exactly when speech was seen, the silence since the last
/// speech frame reaches the threshold and the run reaches the minimum
/// length; a run without speech never stops.
pub proof fn law_tracker_run(silence_ms: u32, min_session_ms: u32, speech: Seq<bool>)
    requires
        speech.len() > 0,
        30 * speech.len() <= u32::MAX,
    ensures
        tracker_after(fresh_tracker(silence_ms, min_session_ms), speech).elapsed_ms == 30
            * speech.len(),
        tracker_after(fresh_tracker(silence_ms, min_session_ms), speech).seen_speech == any_speech(
            speech,
        ),
        (tracker_step(
            tracker_after(fresh_tracker(silence_ms, min_session_ms), speech.drop_last()),
            speech.last(),
        ).1 == StopDecision::Stop) == (any_speech(speech) && 30 * trailing_silence(speech)
            >= silence_ms && 30 * speech.len() >= min_session_ms),
{
    lemma_tracker_after(silence_ms, min_session_ms, speech);
    lemma_tracker_after(silence_ms, min_session_ms, speech.drop_last());
}

/// Clamps a configured silence threshold to the allowed range.
pub fn clamp_silence_ms(ms: u32) -> (r: u32)
    ensures
        r == if ms < SILENCE_MS_MIN {
            SILENCE_MS_MIN
        } else if ms > SILENCE_MS_MAX {
            SILENCE_MS_MAX
        } else {
            ms
        },
{
    if ms < SILENCE_MS_MIN {
        SILENCE_MS_MIN
    } else if ms > SILENCE_MS_MAX {
        SILENCE_MS_MAX
    } else {
        ms
    }
}

} // verus!
