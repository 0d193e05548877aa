//! The session state machine that ties hotkey, audio, recogniser and
//! injector together.
//!
//! The application runs the asynchronous work (recording, transcribing,
//! sending, timers) and reports each result here; this module owns the state,
//! the generation counter that makes late results of a cancelled session
//! harmless, the text kept for a retry, and the routing of hotkey events.
//! Every state change the user interface sees is decided here.

use vstd::prelude::*;
use crate::interaction::{EndTrigger, InteractionPolicy, PostFinalize};
use crate::text;
use crate::text::{owned, push_str};
use crate::json::{Json, JsonValue, child, child_of};
use crate::profile::GameProfile;

verus! {

/// The states of a session.
#[derive(Debug, Clone, Copy, PartialEq, Eq, Structural)]
pub enum OrchestratorState {
    Idle,
    Listening,
    Transcribing,
    Preview,
    Sending,
    Success,
    Error,
}

pub open spec fn state_label(s: OrchestratorState) -> Seq<char> {
    match s {
        OrchestratorState::Idle => "idle"@,
        OrchestratorState::Listening => "listening"@,
        OrchestratorState::Transcribing => "transcribing"@,
        OrchestratorState::Preview => "preview"@,
        OrchestratorState::Sending => "sending"@,
        OrchestratorState::Success => "success"@,
        OrchestratorState::Error => "error"@,
    }
}

pub open spec fn state_debug(s: OrchestratorState) -> Seq<char> {
    match s {
        OrchestratorState::Idle => "Idle"@,
        OrchestratorState::Listening => "Listening"@,
        OrchestratorState::Transcribing => "Transcribing"@,
        OrchestratorState::Preview => "Preview"@,
        OrchestratorState::Sending => "Sending"@,
        OrchestratorState::Success => "Success"@,
        OrchestratorState::Error => "Error"@,
    }
}

impl OrchestratorState {
    /// The lower-case name sent to the user interface.
    pub fn label(self) -> (r: &'static str)
        ensures
            r@ == state_label(self),
    {
        match self {
            OrchestratorState::Idle => "idle",
            OrchestratorState::Listening => "listening",
            OrchestratorState::Transcribing => "transcribing",
            OrchestratorState::Preview => "preview",
            OrchestratorState::Sending => "sending",
            OrchestratorState::Success => "success",
            OrchestratorState::Error => "error",
        }
    }

    /// The variant name, as error messages show it.
    pub fn debug_name(self) -> (r: &'static str)
        ensures
            r@ == state_debug(self),
    {
        match self {
            OrchestratorState::Idle => "Idle",
            OrchestratorState::Listening => "Listening",
            OrchestratorState::Transcribing => "Transcribing",
            OrchestratorState::Preview => "Preview",
            OrchestratorState::Sending => "Sending",
            OrchestratorState::Success => "Success",
            OrchestratorState::Error => "Error",
        }
    }
}

// ---------- hotkey routing ----------

/// What a hotkey event asks of the machine.
#[derive(Debug, Clone, Copy, PartialEq, Eq, Structural)]
pub enum Command {
    Begin,
    End,
    ConfirmSend,
    Cancel,
    /// Clear a success or error toast, then begin the next sentence at once.
    CancelThenBegin,
    Ignore,
}

/// A tap of the trigger key: begin when idle; while listening, stop the
/// session in continuous mode, end it when a press ends sessions; confirm a
/// preview; during a success toast or a text-less error toast, begin the next
/// sentence; otherwise cancel (an error that keeps text for a retry is only
/// cancelled, so the retry stays possible).
pub open spec fn toggle_command(state: OrchestratorState, has_text: bool, policy: InteractionPolicy) -> Command {
    match state {
        OrchestratorState::Idle => Command::Begin,
        OrchestratorState::Listening => if policy.continuous {
            Command::Cancel
        } else if policy.end != EndTrigger::HotkeyRelease {
            Command::End
        } else {
            Command::Ignore
        },
        OrchestratorState::Preview => Command::ConfirmSend,
        OrchestratorState::Success => Command::CancelThenBegin,
        OrchestratorState::Error => if !has_text {
            Command::CancelThenBegin
        } else {
            Command::Cancel
        },
        _ => Command::Cancel,
    }
}

/// The hold key: a press begins when idle, or during a success toast or a
/// text-less error toast begins the next sentence, and is ignored otherwise
/// (a preview or a retryable error keeps its way forward); a release ends a
/// listening session when release ends sessions.
pub open spec fn hold_command(pressed: bool, state: OrchestratorState, has_text: bool, policy: InteractionPolicy) -> Command {
    if pressed {
        match state {
            OrchestratorState::Idle => Command::Begin,
            OrchestratorState::Success => Command::CancelThenBegin,
            OrchestratorState::Error => if !has_text {
                Command::CancelThenBegin
            } else {
                Command::Ignore
            },
            _ => Command::Ignore,
        }
    } else if policy.end == EndTrigger::HotkeyRelease && state == OrchestratorState::Listening {
        Command::End
    } else {
        Command::Ignore
    }
}

pub fn on_hotkey_toggle(state: OrchestratorState, has_text: bool, policy: InteractionPolicy) -> (r: Command)
    ensures
        r == toggle_command(state, has_text, policy),
{
    match state {
        OrchestratorState::Idle => Command::Begin,
        OrchestratorState::Listening => {
            if policy.continuous {
                Command::Cancel
            } else if policy.end != EndTrigger::HotkeyRelease {
                Command::End
            } else {
                Command::Ignore
            }
        },
        OrchestratorState::Preview => Command::ConfirmSend,
        OrchestratorState::Success => Command::CancelThenBegin,
        OrchestratorState::Error => {
            if !has_text {
                Command::CancelThenBegin
            } else {
                Command::Cancel
            }
        },
        _ => Command::Cancel,
    }
}

pub fn on_hotkey_hold(pressed: bool, state: OrchestratorState, has_text: bool, policy: InteractionPolicy) -> (r: Command)
    ensures
        r == hold_command(pressed, state, has_text, policy),
{
    if pressed {
        match state {
            OrchestratorState::Idle => Command::Begin,
            OrchestratorState::Success => Command::CancelThenBegin,
            OrchestratorState::Error => {
                if !has_text {
                    Command::CancelThenBegin
                } else {
                    Command::Ignore
                }
            },
            _ => Command::Ignore,
        }
    } else if policy.end == EndTrigger::HotkeyRelease && state == OrchestratorState::Listening {
        Command::End
    } else {
        Command::Ignore
    }
}

// ---------- the machine ----------

/// The next generation (wrapping: two generations in a row always differ).
pub open spec fn next_gen(g: u64) -> u64 {
    if g == u64::MAX {
        0
    } else {
        (g + 1) as u64
    }
}

/// The machine: state, generation (bumped by every begin, end and cancel, so
/// results of an older generation are dropped), and the text kept for a
/// preview or a retry.
pub struct Machine {
    pub state: OrchestratorState,
    pub gen: u64,
    pub text: Option<String>,
}

/// What follows a finished transcription.
#[derive(Debug, Clone, Copy, PartialEq, Eq, Structural)]
pub enum AfterFinalize {
    /// The session was cancelled meanwhile: the result is dropped.
    Stale,
    /// Nothing was said: back to idle without a toast or a record.
    Empty,
    /// The text goes straight to the injector.
    Send,
    /// The text waits in the preview for confirmation.
    Preview,
}

fn bump(g: u64) -> (r: u64)
    ensures
        r == next_gen(g),
{
    if g == u64::MAX {
        0
    } else {
        g + 1
    }
}

fn refusal(state: OrchestratorState, tail: &str) -> (r: String)
    ensures
        r@ == "当前状态 "@ + state_debug(state) + tail@,
{
    let mut m = owned("当前状态 ");
    push_str(&mut m, state.debug_name());
    push_str(&mut m, tail);
    m
}

impl Machine {
    pub fn new() -> (r: Machine)
        ensures
            r.state == OrchestratorState::Idle,
            r.gen == 0,
            r.text.is_none(),
    {
        Machine { state: OrchestratorState::Idle, gen: 0, text: None }
    }

    /// Starts a session; only an idle machine can.
    pub fn begin(&mut self) -> (r: Result<u64, String>)
        ensures
            old(self).state == OrchestratorState::Idle ==> r == Ok::<u64, String>(next_gen(old(self).gen))
                && final(self).state == OrchestratorState::Listening && final(self).gen == next_gen(
                old(self).gen,
            ) && final(self).text.is_none(),
            old(self).state != OrchestratorState::Idle ==> r is Err && r->Err_0@ == "当前状态 "@
                + state_debug(old(self).state) + " 不能开始新会话"@ && final(self).state == old(self).state && final(self).gen == old(self).gen && final(self).text == old(self).text,
    {
        if self.state != OrchestratorState::Idle {
            return Err(refusal(self.state, " 不能开始新会话"));
        }
        self.gen = bump(self.gen);
        self.state = OrchestratorState::Listening;
        self.text = None;
        Ok(self.gen)
    }

    /// A session could not start: an error toast without text (it goes back
    /// to idle after the dwell). Gives the generation to wait on.
    pub fn begin_failed(&mut self) -> (r: u64)
        ensures
            final(self).state == OrchestratorState::Error,
            final(self).text.is_none(),
            final(self).gen == old(self).gen,
            r == old(self).gen,
    {
        self.text = None;
        self.state = OrchestratorState::Error;
        self.gen
    }

    /// Stops listening and starts transcribing; only a listening machine can.
    pub fn end(&mut self) -> (r: Result<u64, String>)
        ensures
            old(self).state == OrchestratorState::Listening ==> r == Ok::<u64, String>(next_gen(
                old(self).gen,
            )) && final(self).state == OrchestratorState::Transcribing && final(self).gen == next_gen(
                old(self).gen,
            ) && final(self).text == old(self).text,
            old(self).state != OrchestratorState::Listening ==> r is Err && r->Err_0@ == "当前状态 "@
                + state_debug(old(self).state) + " 不能结束会话"@ && final(self).state == old(self).state && final(self).gen == old(self).gen && final(self).text == old(self).text,
    {
        if self.state != OrchestratorState::Listening {
            return Err(refusal(self.state, " 不能结束会话"));
        }
        self.gen = bump(self.gen);
        self.state = OrchestratorState::Transcribing;
        Ok(self.gen)
    }

    /// The transcription of generation `gen` finished with `text`: dropped
    /// when stale; blank text goes back to idle; otherwise the policy sends it
    /// or shows it for confirmation.
    pub fn finalized(&mut self, gen: u64, text: &str, post: PostFinalize) -> (r: AfterFinalize)
        ensures
            gen != old(self).gen ==> r == AfterFinalize::Stale && final(self).state == old(self).state
                && final(self).text == old(self).text,
            gen == old(self).gen && text::trim(text@).len() == 0 ==> r == AfterFinalize::Empty
                && final(self).state == OrchestratorState::Idle && final(self).text == old(self).text,
            gen == old(self).gen && text::trim(text@).len() > 0 && post == PostFinalize::SendDirect
                ==> r == AfterFinalize::Send && final(self).state == old(self).state && final(self).text == old(self).text,
            gen == old(self).gen && text::trim(text@).len() > 0 && post
                == PostFinalize::PreviewConfirm ==> r == AfterFinalize::Preview && final(self).state
                == OrchestratorState::Preview && final(self).text is Some && final(self).text->0@ == text@,
            final(self).gen == old(self).gen,
    {
        if self.gen != gen {
            return AfterFinalize::Stale;
        }
        if text::is_blank(text) {
            proof {
                text::lemma_trim_empty_iff(text@);
            }
            self.state = OrchestratorState::Idle;
            return AfterFinalize::Empty;
        }
        proof {
            text::lemma_trim_empty_iff(text@);
        }
        match post {
            PostFinalize::SendDirect => AfterFinalize::Send,
            PostFinalize::PreviewConfirm => {
                self.text = Some(owned(text));
                self.state = OrchestratorState::Preview;
                AfterFinalize::Preview
            },
        }
    }

    /// Recording or transcription of generation `gen` failed: an error toast
    /// (no text to retry), unless the session is stale. True when applied.
    pub fn failed(&mut self, gen: u64) -> (r: bool)
        ensures
            r == (gen == old(self).gen),
            r ==> final(self).state == OrchestratorState::Error && final(self).text.is_none(),
            !r ==> final(self).state == old(self).state && final(self).text == old(self).text,
            final(self).gen == old(self).gen,
    {
        if self.gen != gen {
            return false;
        }
        self.text = None;
        self.state = OrchestratorState::Error;
        true
    }

    /// The user confirms a preview, or retries an error that kept its text:
    /// gives the generation and the text to send.
    pub fn confirm_send(&self) -> (r: Result<(u64, String), String>)
        ensures
            (self.state == OrchestratorState::Preview || self.state == OrchestratorState::Error)
                && self.text is Some ==> r is Ok && r->Ok_0.0 == self.gen && r->Ok_0.1@
                == self.text->0@,
            (self.state == OrchestratorState::Preview || self.state == OrchestratorState::Error)
                && self.text is None ==> r is Err && r->Err_0@ == "无待发送文本"@,
            !(self.state == OrchestratorState::Preview || self.state == OrchestratorState::Error)
                ==> r is Err && r->Err_0@ == "当前状态 "@ + state_debug(self.state) + " 不能确认发送"@,
    {
        if self.state != OrchestratorState::Preview && self.state != OrchestratorState::Error {
            return Err(refusal(self.state, " 不能确认发送"));
        }
        match &self.text {
            Some(t) => Ok((self.gen, t.clone())),
            None => Err(owned("无待发送文本")),
        }
    }

    /// Sending of generation `gen` starts. False (nothing changes) when stale.
    pub fn start_send(&mut self, gen: u64) -> (r: bool)
        ensures
            r == (gen == old(self).gen),
            r ==> final(self).state == OrchestratorState::Sending,
            !r ==> final(self).state == old(self).state,
            final(self).text == old(self).text,
            final(self).gen == old(self).gen,
    {
        if self.gen != gen {
            return false;
        }
        self.state = OrchestratorState::Sending;
        true
    }

    /// Sending of generation `gen` finished: success clears the text, a
    /// failure keeps it for a retry. False (nothing changes) when stale.
    pub fn send_finished(&mut self, gen: u64, ok: bool, text: &str) -> (r: bool)
        ensures
            r == (gen == old(self).gen),
            r && ok ==> final(self).state == OrchestratorState::Success && final(self).text.is_none(),
            r && !ok ==> final(self).state == OrchestratorState::Error && final(self).text is Some && final(self).text->0@ == text@,
            !r ==> final(self).state == old(self).state && final(self).text == old(self).text,
            final(self).gen == old(self).gen,
    {
        if self.gen != gen {
            return false;
        }
        if ok {
            self.text = None;
            self.state = OrchestratorState::Success;
        } else {
            self.text = Some(owned(text));
            self.state = OrchestratorState::Error;
        }
        true
    }

    /// Cancels whatever runs: back to idle from any state. False when already
    /// idle (nothing changes).
    pub fn cancel(&mut self) -> (r: bool)
        ensures
            r == (old(self).state != OrchestratorState::Idle),
            final(self).state == OrchestratorState::Idle,
            r ==> final(self).gen == next_gen(old(self).gen) && final(self).text.is_none(),
            !r ==> final(self).gen == old(self).gen && final(self).text == old(self).text,
    {
        if self.state == OrchestratorState::Idle {
            return false;
        }
        self.gen = bump(self.gen);
        self.text = None;
        self.state = OrchestratorState::Idle;
        true
    }

    /// The toast dwell scheduled at generation `gen` elapsed: a success, or an
    /// error without text, of the same generation goes back to idle. Gives
    /// whether it was a success (a continuous session then begins the next
    /// sentence); `None` when nothing changed.
    pub fn dwell_elapsed(&mut self, gen: u64) -> (r: Option<bool>)
        ensures
            ({
                let goes = gen == old(self).gen && (old(self).state == OrchestratorState::Success || (
                old(self).state == OrchestratorState::Error && old(self).text.is_none()));
                &&& goes ==> r == Some(old(self).state == OrchestratorState::Success) && final(self).state == OrchestratorState::Idle
                &&& !goes ==> r.is_none() && final(self).state == old(self).state
            }),
            final(self).text == old(self).text,
            final(self).gen == old(self).gen,
    {
        let success = self.state == OrchestratorState::Success;
        let error_no_text = self.state == OrchestratorState::Error && self.text.is_none();
        if self.gen == gen && (success || error_no_text) {
            self.state = OrchestratorState::Idle;
            Some(success)
        } else {
            None
        }
    }
}

// ---------- starting a session ----------

/// The engine chosen in the settings, as the registry sees it.
pub enum EngineStatus {
    /// No engine has this id.
    Unregistered,
    /// Registered, with its display name; ready when its model is present.
    Registered { display_name: String, ready: bool },
}

/// How a session that may begin is set up.
#[derive(Debug, Clone, Copy, PartialEq, Eq, Structural)]
pub struct BeginPlan {
    /// Voice activity detection ends the session (its silence threshold).
    pub vad_silence_ms: Option<u32>,
    /// A history draft is kept (history is not off).
    pub history_on: bool,
    /// The session is recorded for evaluation.
    pub record_eval: bool,
}

pub open spec fn not_ready_message(name: Seq<char>) -> Seq<char> {
    "引擎「"@ + name + "」未就绪（模型未下载），请到「设置 → 高级」下载模型"@
}

pub open spec fn no_vad_message() -> Seq<char> {
    "one-shot / solo 模式需要 VAD，但当前构建未接入（vad-silero feature 未编译）"@
}

/// Checks that a session can begin and how it is set up: the engine must be
/// registered and ready; a policy that ends sessions on silence needs voice
/// activity detection, whose threshold is the setting clamped to its range.
pub fn plan_begin(
    engine_id: &str,
    engine: &EngineStatus,
    policy: InteractionPolicy,
    vad_available: bool,
    vad_silence_ms: u32,
    history_mode: crate::history::HistoryMode,
    eval_recording: bool,
) -> (r: Result<BeginPlan, String>)
    ensures
        match *engine {
            EngineStatus::Unregistered => r is Err && r->Err_0@ == "未注册的 STT 引擎: "@ + engine_id@,
            EngineStatus::Registered { display_name, ready } => if !ready {
                r is Err && r->Err_0@ == not_ready_message(display_name@)
            } else if policy.end == EndTrigger::VadSilence && !vad_available {
                r is Err && r->Err_0@ == no_vad_message()
            } else {
                &&& r is Ok
                &&& r->Ok_0.vad_silence_ms == (if policy.end == EndTrigger::VadSilence {
                    Some(
                        if vad_silence_ms < crate::vad::SILENCE_MS_MIN {
                            crate::vad::SILENCE_MS_MIN
                        } else if vad_silence_ms > crate::vad::SILENCE_MS_MAX {
                            crate::vad::SILENCE_MS_MAX
                        } else {
                            vad_silence_ms
                        },
                    )
                } else {
                    None
                })
                &&& r->Ok_0.history_on == (history_mode != crate::history::HistoryMode::Off)
                &&& r->Ok_0.record_eval == eval_recording
            },
        },
{
    match engine {
        EngineStatus::Unregistered => {
            let mut m = owned("未注册的 STT 引擎: ");
            push_str(&mut m, engine_id);
            Err(m)
        },
        EngineStatus::Registered { display_name, ready } => {
            if !*ready {
                let mut m = owned("引擎「");
                push_str(&mut m, display_name.as_str());
                push_str(&mut m, "」未就绪（模型未下载），请到「设置 → 高级」下载模型");
                return Err(m);
            }
            let use_vad = policy.end == EndTrigger::VadSilence;
            if use_vad && !vad_available {
                return Err(owned("one-shot / solo 模式需要 VAD，但当前构建未接入（vad-silero feature 未编译）"));
            }
            let silence = if use_vad {
                Some(crate::vad::clamp_silence_ms(vad_silence_ms))
            } else {
                None
            };
            Ok(
                BeginPlan {
                    vad_silence_ms: silence,
                    history_on: history_mode != crate::history::HistoryMode::Off,
                    record_eval: eval_recording,
                },
            )
        },
    }
}

/// Why a transcription produced no text.
#[derive(Debug, Clone, Copy, PartialEq, Eq, Structural)]
pub enum FinalizeFailure {
    /// The transcription thread died.
    Crashed,
    /// It took longer than the limit (seconds).
    TimedOut(u64),
}

/// The message shown for a transcription that produced no text.
pub fn finalize_failure_message(f: FinalizeFailure) -> (r: String)
    ensures
        match f {
            FinalizeFailure::Crashed => r@ == "转写线程异常"@,
            FinalizeFailure::TimedOut(s) => r@ == "转写超时（"@ + text::dec(s as nat) + "s）"@,
        },
{
    match f {
        FinalizeFailure::Crashed => owned("转写线程异常"),
        FinalizeFailure::TimedOut(s) => {
            let mut m = owned("转写超时（");
            text::push_dec(&mut m, s);
            push_str(&mut m, "s）");
            m
        },
    }
}

// ---------- history bookkeeping ----------

/// What a session end does to its history draft.
#[derive(Debug, Clone, Copy, PartialEq, Eq, Structural)]
pub struct HistoryStep {
    /// Write a record.
    pub write: bool,
    /// The draft has now been reported as an error.
    pub reported: bool,
    /// Keep the draft (an error may still be retried).
    pub keep_draft: bool,
}

/// A cancel after an error that was already recorded writes nothing (it is a
/// clean-up, not a second outcome); any other end writes a record. An error
/// keeps the draft, so a successful retry records the same session again.
pub open spec fn history_step_spec(outcome: crate::history::HistoryOutcome, reported: bool) -> HistoryStep {
    if outcome == crate::history::HistoryOutcome::Cancelled && reported {
        HistoryStep { write: false, reported, keep_draft: true }
    } else {
        HistoryStep {
            write: true,
            reported: if outcome != crate::history::HistoryOutcome::Cancelled {
                true
            } else {
                reported
            },
            keep_draft: outcome == crate::history::HistoryOutcome::Error,
        }
    }
}

pub fn history_step(outcome: crate::history::HistoryOutcome, reported: bool) -> (r: HistoryStep)
    ensures
        r == history_step_spec(outcome, reported),
{
    if outcome == crate::history::HistoryOutcome::Cancelled && reported {
        return HistoryStep { write: false, reported, keep_draft: true };
    }
    let now_reported = if outcome != crate::history::HistoryOutcome::Cancelled {
        true
    } else {
        reported
    };
    HistoryStep {
        write: true,
        reported: now_reported,
        keep_draft: outcome == crate::history::HistoryOutcome::Error,
    }
}

// ---------- laws ----------

/// A begin, end or cancel moves to a new generation, so every result that an
/// ended or cancelled session still delivers is recognised as stale.
pub proof fn law_new_generation_differs(g: u64)
    ensures
        next_gen(g) != g,
{
}

/// A hotkey event never begins a session while a preview or a retryable
/// error waits, and an idle machine always begins on a tap or a press.
pub proof fn law_hotkey_keeps_pending_text(state: OrchestratorState, has_text: bool, policy: InteractionPolicy)
    ensures
        (state == OrchestratorState::Preview || (state == OrchestratorState::Error && has_text))
            ==> toggle_command(state, has_text, policy) != Command::Begin && toggle_command(
            state,
            has_text,
            policy,
        ) != Command::CancelThenBegin && hold_command(true, state, has_text, policy)
            == Command::Ignore,
        state == OrchestratorState::Idle ==> toggle_command(state, has_text, policy)
            == Command::Begin && hold_command(true, state, has_text, policy) == Command::Begin,
{
}

/// A press of either key while a toast shows that keeps no text (a success,
/// or an error with nothing to retry) clears the toast and begins the next
/// sentence at once; the hold key and the trigger key agree there, whatever
/// the policy. No other state makes a press cancel and begin.
pub proof fn law_press_on_toast_begins_next_sentence(state: OrchestratorState, policy: InteractionPolicy)
    ensures
        (state == OrchestratorState::Success || state == OrchestratorState::Error) ==> {
            &&& hold_command(true, state, false, policy) == Command::CancelThenBegin
            &&& toggle_command(state, false, policy) == Command::CancelThenBegin
        },
        hold_command(true, state, false, policy) == Command::CancelThenBegin <==> (state
            == OrchestratorState::Success || state == OrchestratorState::Error),
        hold_command(true, state, false, policy) == Command::CancelThenBegin <==> toggle_command(
            state,
            false,
            policy,
        ) == Command::CancelThenBegin,
{
}

/// What the library assembles of a session's configuration: the language,
/// the active profile's hotwords and the engine's own options (the hotword
/// score, a float, is added by the application).
pub struct SessionSetup {
    pub language: String,
    pub hotwords: Vec<String>,
    pub options: JsonValue,
}

/// The session configuration for `engine_id`: the profile's hotwords as
/// they are, and the engine's entry of `engine_options`, null when there is
/// none.
pub fn build_session_config(
    language: &str,
    engine_options: &JsonValue,
    engine_id: &str,
    profile: &GameProfile,
) -> (r: SessionSetup)
    ensures
        r.language@ == language@,
        r.hotwords@ == profile.hotwords@,
        r.options@ == match child(engine_options@, engine_id@) {
            Some(v) => v,
            None => Json::Null,
        },
{
    let key = owned(engine_id);
    let options = match child_of(engine_options, &key) {
        Some(v) => v.deep_copy(),
        None => JsonValue::Null,
    };
    SessionSetup {
        language: owned(language),
        hotwords: text::copy_strings(&profile.hotwords),
        options,
    }
}

} // verus!
