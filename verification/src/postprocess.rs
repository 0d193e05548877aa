//! Post-processing of recognised text: a pipeline of text processors that
//! runs step by step, with a trace of what each step did.
//!
//! The processors (and their time-outs and cancellation) run in the
//! application; after each step it reports the step's outcome here, and this
//! module decides what the document becomes, what the trace records, and
//! whether the pipeline stops. The configuration names the pipelines a user
//! can switch between and which one is active.

use vstd::prelude::*;
use crate::text;
use crate::text::owned;
use crate::json::JsonValue;

verus! {

/// Default time limit of a step.
pub const DEFAULT_STEP_TIMEOUT_MS: u64 = 5000;

/// What a failing step does to the pipeline: a required step stops it, a
/// best-effort step is skipped and the previous text goes on.
#[derive(Debug, Clone, Copy, PartialEq, Eq, Structural)]
pub enum StepFailurePolicy {
    Required,
    BestEffort,
}

impl Default for StepFailurePolicy {
    fn default() -> (r: StepFailurePolicy)
        ensures
            r == StepFailurePolicy::Required,
    {
        StepFailurePolicy::Required
    }
}

/// The text being processed, beside the recognised source text.
#[derive(Debug, Clone, PartialEq, Eq)]
pub struct TextDocument {
    pub source_text: String,
    pub text: String,
}

impl TextDocument {
    /// A document fresh from the recogniser: source and current text equal.
    pub fn recognized(text: &str) -> (r: TextDocument)
        ensures
            r.source_text@ == text@,
            r.text@ == text@,
    {
        TextDocument { source_text: owned(text), text: owned(text) }
    }
}

/// The fixed context of one pipeline run.
#[derive(Debug, Clone, Default, PartialEq, Eq)]
pub struct ProcessingContext {
    pub session_id: String,
    pub profile_id: Option<String>,
    pub channel_id: Option<String>,
}

/// How a processor presents itself to the settings page.
#[derive(Debug, Clone, PartialEq, Eq)]
pub struct ProcessorDescriptor {
    pub id: String,
    pub display_name: String,
    pub description: String,
    pub category: ProcessorCategory,
    pub developer_only: bool,
    pub network_access: NetworkAccess,
    pub config_fields: Vec<ProcessorConfigField>,
}

/// A configuration field a processor declares; the settings page builds its
/// form from these.
#[derive(Debug, Clone, PartialEq, Eq)]
pub struct ProcessorConfigField {
    pub key: String,
    pub display_name: String,
    pub description: String,
    pub kind: ProcessorConfigFieldKind,
    pub required: bool,
    pub file_extensions: Vec<String>,
    pub placeholder: String,
    pub presets: Vec<ProcessorFieldPreset>,
    pub compatible_providers: Vec<String>,
}

#[derive(Debug, Clone, PartialEq, Eq)]
pub struct ProcessorFieldPreset {
    pub id: String,
    pub display_name: String,
    pub value: String,
}

#[derive(Debug, Clone, Copy, PartialEq, Eq, Structural)]
pub enum ProcessorConfigFieldKind {
    Text,
    File,
    /// A connection from the settings, stored by id.
    Connection,
}

#[derive(Debug, Clone, Copy, PartialEq, Eq, Structural)]
pub enum ProcessorCategory {
    Writing,
    Translation,
    Utility,
}

/// The farthest network a processor may reach with the text.
#[derive(Debug, Clone, Copy, PartialEq, Eq, Structural)]
pub enum NetworkAccess {
    Off,
    Local,
    Internet,
}

#[derive(Debug, Clone, Copy, PartialEq, Eq, Structural)]
pub enum ProcessErrorKind {
    Cancelled,
    Failed,
    InvalidOutput,
}

#[derive(Debug, Clone, PartialEq, Eq)]
pub struct ProcessError {
    pub kind: ProcessErrorKind,
    pub message: String,
}

impl ProcessError {
    pub fn failed(message: &str) -> (r: ProcessError)
        ensures
            r.kind == ProcessErrorKind::Failed,
            r.message@ == message@,
    {
        ProcessError { kind: ProcessErrorKind::Failed, message: owned(message) }
    }

    /// The outcome of a step that ran past its time limit: a failure
    /// "处理超时（Nms）", N being the limit (at least 1 ms, as the step is run).
    pub fn timed_out(timeout_ms: u64) -> (r: ProcessError)
        ensures
            r.kind == ProcessErrorKind::Failed,
            r.message@ == "处理超时（"@ + text::dec(if timeout_ms == 0 {
                1nat
            } else {
                timeout_ms as nat
            }) + "ms）"@,
    {
        let limit: u64 = if timeout_ms == 0 {
            1
        } else {
            timeout_ms
        };
        let mut message = owned("处理超时（");
        text::push_dec(&mut message, limit);
        text::push_str(&mut message, "ms）");
        ProcessError { kind: ProcessErrorKind::Failed, message }
    }
}

/// Progress reported when a step starts (`index` counts from 1).
#[derive(Debug, Clone, PartialEq, Eq)]
pub struct PipelineStepProgress {
    pub step_id: String,
    pub processor_id: String,
    pub display_name: String,
    pub index: usize,
    pub total: usize,
}

#[derive(Debug, Clone, PartialEq, Eq)]
pub struct PipelineResult {
    pub pipeline_id: String,
    pub source_text: String,
    pub final_text: String,
    pub trace: Vec<PipelineStepTrace>,
}

#[derive(Debug, Clone, PartialEq, Eq)]
pub struct PipelineError {
    pub step_id: String,
    pub processor_id: String,
    pub kind: ProcessErrorKind,
    pub message: String,
    pub trace: Vec<PipelineStepTrace>,
}

#[derive(Debug, Clone, PartialEq, Eq)]
pub struct PipelineStepTrace {
    pub step_id: String,
    pub processor_id: String,
    pub display_name: String,
    pub duration_ms: u64,
    pub outcome: PipelineStepOutcome,
    pub error: Option<String>,
}

#[derive(Debug, Clone, Copy, PartialEq, Eq, Structural)]
pub enum PipelineStepOutcome {
    Succeeded,
    Failed,
}

/// What a trial run in the settings page returns.
#[derive(Debug, Clone, PartialEq, Eq)]
pub struct PostProcessingTestResult {
    pub source_text: String,
    pub final_text: String,
    pub pipeline_id: String,
    pub duration_ms: u64,
    pub steps: Vec<PipelineStepTrace>,
}

// ---------- running the steps ----------

/// A step of a compiled pipeline: its ids, its name, what a failure does and
/// its time limit.
#[derive(Debug, Clone, PartialEq, Eq)]
pub struct StepInfo {
    pub step_id: String,
    pub processor_id: String,
    pub display_name: String,
    pub on_error: StepFailurePolicy,
    pub timeout_ms: u64,
}

impl StepInfo {
    /// How long the step may run: its configured limit, at least 1 ms.
    pub fn time_limit_ms(&self) -> (r: u64)
        ensures
            r == if self.timeout_ms == 0 {
                1
            } else {
                self.timeout_ms
            },
    {
        if self.timeout_ms == 0 {
            1
        } else {
            self.timeout_ms
        }
    }
}

/// A pipeline run in progress: its steps, the document and the trace so far.
pub struct PipelineRun {
    pub steps: Vec<StepInfo>,
    pub document: TextDocument,
    pub trace: Vec<PipelineStepTrace>,
}

/// The trace entry names the step (its ids and its name).
pub open spec fn names_step(t: PipelineStepTrace, s: StepInfo) -> bool {
    t.step_id@ == s.step_id@ && t.processor_id@ == s.processor_id@ && t.display_name@
        == s.display_name@
}

/// What happens before the next step of a run.
pub enum StepStart {
    /// Every step has run: the run finishes.
    Done,
    /// The run was cancelled before this step could start.
    Cancelled(PipelineError),
    /// The step starts: observers are told this.
    Run(PipelineStepProgress),
}

/// How the run goes on after a step.
pub enum StepVerdict {
    /// Go on with the next step.
    Continue,
    /// The pipeline stops with this error.
    Stop(PipelineError),
}

fn copy_trace(t: &PipelineStepTrace) -> (r: PipelineStepTrace)
    ensures
        r.step_id@ == t.step_id@,
        r.processor_id@ == t.processor_id@,
        r.display_name@ == t.display_name@,
        r.duration_ms == t.duration_ms,
        r.outcome == t.outcome,
        r.error == t.error,
{
    PipelineStepTrace {
        step_id: t.step_id.clone(),
        processor_id: t.processor_id.clone(),
        display_name: t.display_name.clone(),
        duration_ms: t.duration_ms,
        outcome: t.outcome,
        error: match &t.error {
            Some(e) => Some(e.clone()),
            None => None,
        },
    }
}

/// The same trace entries, entry by entry.
pub open spec fn same_entry(a: PipelineStepTrace, b: PipelineStepTrace) -> bool {
    a.step_id@ == b.step_id@ && a.processor_id@ == b.processor_id@ && a.display_name@
        == b.display_name@ && a.duration_ms == b.duration_ms && a.outcome == b.outcome && a.error
        == b.error
}

pub open spec fn same_trace(a: Seq<PipelineStepTrace>, b: Seq<PipelineStepTrace>) -> bool {
    a.len() == b.len() && forall|i: int| 0 <= i < a.len() ==> same_entry(#[trigger] a[i], b[i])
}

fn copy_traces(v: &Vec<PipelineStepTrace>) -> (r: Vec<PipelineStepTrace>)
    ensures
        same_trace(r@, v@),
{
    let mut r: Vec<PipelineStepTrace> = Vec::new();
    let mut i: usize = 0;
    while i < v.len()
        invariant
            i <= v@.len(),
            r@.len() == i,
            forall|k: int| 0 <= k < i ==> same_entry(#[trigger] r@[k], v@[k]),
        decreases v.len() - i,
    {
        r.push(copy_trace(&v[i]));
        i += 1;
    }
    r
}

impl PipelineRun {
    /// A run is well formed when each trace entry names the step at its
    /// position: the steps that went through, in order.
    pub open spec fn wf(&self) -> bool {
        &&& self.trace@.len() <= self.steps@.len()
        &&& forall|i: int| 0 <= i < self.trace@.len() ==> names_step(#[trigger] self.trace@[i], self.steps@[i])
    }

    /// The step that comes next: the one at the trace's length, since each
    /// step that does not stop the run adds one trace entry.
    pub open spec fn position(&self) -> int {
        self.trace@.len() as int
    }

    /// A run of `steps` over freshly recognised text.
    pub fn start(source_text: &str, steps: Vec<StepInfo>) -> (r: PipelineRun)
        ensures
            r.wf(),
            r.steps@ == steps@,
            r.document.source_text@ == source_text@,
            r.document.text@ == source_text@,
            r.trace@.len() == 0,
    {
        PipelineRun { steps, document: TextDocument::recognized(source_text), trace: Vec::new() }
    }

    /// Takes the outcome of the next step. A result with text that is not
    /// blank becomes the document and is traced as succeeded. A blank result
    /// counts as an invalid output. A cancellation stops the run at once, with
    /// the trace so far. Any other failure is traced as failed with its
    /// message; a required step then stops the run with that error, a
    /// best-effort step leaves the document as it was.
    pub fn apply(&mut self, duration_ms: u64, outcome: Result<TextDocument, ProcessError>) -> (r: StepVerdict)
        requires
            old(self).wf(),
            old(self).position() < old(self).steps@.len(),
        ensures
            final(self).wf(),
            final(self).steps@ == old(self).steps@,
            ({
                let step = old(self).steps@[old(self).position()];
                match outcome {
                    Ok(next) => if text::trim(next.text@).len() > 0 {
                        &&& r is Continue
                        &&& final(self).document == next
                        &&& final(self).trace@.len() == old(self).trace@.len() + 1
                        &&& final(self).trace@.last().outcome == PipelineStepOutcome::Succeeded
                        &&& final(self).trace@.last().error.is_none()
                    } else {
                        &&& final(self).document == old(self).document
                        &&& final(self).trace@.len() == old(self).trace@.len() + 1
                        &&& final(self).trace@.last().outcome == PipelineStepOutcome::Failed
                        &&& final(self).trace@.last().error is Some
                        &&& final(self).trace@.last().error->0@ == "处理器返回了空文本"@
                        &&& (step.on_error == StepFailurePolicy::Required <==> r is Stop)
                        &&& r is Stop ==> r->0.kind == ProcessErrorKind::InvalidOutput
                            && r->0.message@ == "处理器返回了空文本"@
                            && same_trace(r->0.trace@, final(self).trace@)
                    },
                    Err(e) => if e.kind == ProcessErrorKind::Cancelled {
                        &&& final(self).document == old(self).document
                        &&& final(self).trace@ == old(self).trace@
                        &&& r is Stop
                        &&& r->0.kind == ProcessErrorKind::Cancelled
                        &&& r->0.message@ == "后处理已取消"@
                        &&& same_trace(r->0.trace@, old(self).trace@)
                    } else {
                        &&& final(self).document == old(self).document
                        &&& final(self).trace@.len() == old(self).trace@.len() + 1
                        &&& final(self).trace@.last().outcome == PipelineStepOutcome::Failed
                        &&& final(self).trace@.last().error is Some
                        &&& final(self).trace@.last().error->0@ == e.message@
                        &&& (step.on_error == StepFailurePolicy::Required <==> r is Stop)
                        &&& r is Stop ==> r->0.kind == e.kind && r->0.message@ == e.message@
                            && same_trace(r->0.trace@, final(self).trace@)
                    },
                }
            }),
            forall|i: int|
                0 <= i < old(self).trace@.len() ==> #[trigger] final(self).trace@[i] == old(self).trace@[i],
            final(self).trace@.len() == old(self).trace@.len() + 1 ==> final(self).trace@.last().duration_ms
                == duration_ms,
            r matches StepVerdict::Stop(err) ==> err.step_id@ == old(self).steps@[old(self).position()].step_id@
                && err.processor_id@ == old(self).steps@[old(self).position()].processor_id@,
    {
        let position = self.trace.len();
        let step_id = self.steps[position].step_id.clone();
        let processor_id = self.steps[position].processor_id.clone();
        let display_name = self.steps[position].display_name.clone();
        let on_error = self.steps[position].on_error;
        let ghost before = self.trace@;
        let error = match outcome {
            Ok(next) => {
                if !text::is_blank(next.text.as_str()) {
                    proof {
                        text::lemma_trim_empty_iff(next.text@);
                    }
                    self.document = next;
                    self.trace.push(
                        PipelineStepTrace {
                            step_id,
                            processor_id,
                            display_name,
                            duration_ms,
                            outcome: PipelineStepOutcome::Succeeded,
                            error: None,
                        },
                    );
                    assert(forall|i: int| 0 <= i < before.len() ==> #[trigger] self.trace@[i] == before[i]);
                    return StepVerdict::Continue;
                }
                proof {
                    text::lemma_trim_empty_iff(next.text@);
                }
                ProcessError {
                    kind: ProcessErrorKind::InvalidOutput,
                    message: owned("处理器返回了空文本"),
                }
            },
            Err(e) => {
                if e.kind == ProcessErrorKind::Cancelled {
                    return StepVerdict::Stop(
                        PipelineError {
                            step_id,
                            processor_id,
                            kind: ProcessErrorKind::Cancelled,
                            message: owned("后处理已取消"),
                            trace: copy_traces(&self.trace),
                        },
                    );
                }
                e
            },
        };
        self.trace.push(
            PipelineStepTrace {
                step_id: step_id.clone(),
                processor_id: processor_id.clone(),
                display_name,
                duration_ms,
                outcome: PipelineStepOutcome::Failed,
                error: Some(error.message.clone()),
            },
        );
        assert(forall|i: int| 0 <= i < before.len() ==> #[trigger] self.trace@[i] == before[i]);
        if on_error == StepFailurePolicy::Required {
            StepVerdict::Stop(
                PipelineError {
                    step_id,
                    processor_id,
                    kind: error.kind,
                    message: error.message,
                    trace: copy_traces(&self.trace),
                },
            )
        } else {
            StepVerdict::Continue
        }
    }

    /// What observers are told as the step at position `position` (from 0)
    /// of `total` starts: its ids and name, numbered from 1.
    pub fn progress(step: &StepInfo, position: usize, total: usize) -> (r: PipelineStepProgress)
        requires
            position < total,
        ensures
            r.step_id@ == step.step_id@,
            r.processor_id@ == step.processor_id@,
            r.display_name@ == step.display_name@,
            r.index == position + 1,
            r.total == total,
    {
        PipelineStepProgress {
            step_id: step.step_id.clone(),
            processor_id: step.processor_id.clone(),
            display_name: step.display_name.clone(),
            index: position + 1,
            total,
        }
    }

    /// Decides what comes before the next step. Once every step has run the
    /// run is done; else a cancellation stops it with the trace so far, and
    /// otherwise the step starts and observers are told so (numbered from 1,
    /// out of the number of steps).
    pub fn next_step(&self, cancelled: bool) -> (r: StepStart)
        requires
            self.wf(),
        ensures
            self.position() == self.steps@.len() <==> r is Done,
            self.position() < self.steps@.len() ==> (cancelled <==> r is Cancelled),
            r matches StepStart::Cancelled(e) ==> {
                let s = self.steps@[self.position()];
                &&& e.step_id@ == s.step_id@
                &&& e.processor_id@ == s.processor_id@
                &&& e.kind == ProcessErrorKind::Cancelled
                &&& e.message@ == "后处理已取消"@
                &&& same_trace(e.trace@, self.trace@)
            },
            r matches StepStart::Run(p) ==> {
                let s = self.steps@[self.position()];
                &&& p.step_id@ == s.step_id@
                &&& p.processor_id@ == s.processor_id@
                &&& p.display_name@ == s.display_name@
                &&& p.index == self.position() + 1
                &&& p.total == self.steps@.len()
            },
    {
        let position = self.trace.len();
        if position == self.steps.len() {
            return StepStart::Done;
        }
        let step = &self.steps[position];
        if cancelled {
            StepStart::Cancelled(
                PipelineError {
                    step_id: step.step_id.clone(),
                    processor_id: step.processor_id.clone(),
                    kind: ProcessErrorKind::Cancelled,
                    message: owned("后处理已取消"),
                    trace: copy_traces(&self.trace),
                },
            )
        } else {
            StepStart::Run(PipelineRun::progress(step, position, self.steps.len()))
        }
    }

    /// The result of a run: the pipeline's id, the source text, the text of
    /// the last step that went through (the source if none did) and the
    /// trace, one entry per step in the order of the steps once they all ran.
    pub fn finish(self, pipeline_id: &str) -> (r: PipelineResult)
        requires
            self.wf(),
        ensures
            r.pipeline_id@ == pipeline_id@,
            r.source_text == self.document.source_text,
            r.final_text == self.document.text,
            r.trace@ == self.trace@,
            self.position() == self.steps@.len() ==> r.trace@.len() == self.steps@.len(),
            forall|i: int| 0 <= i < r.trace@.len() ==> names_step(#[trigger] r.trace@[i], self.steps@[i]),
    {
        PipelineResult {
            pipeline_id: owned(pipeline_id),
            source_text: self.document.source_text,
            final_text: self.document.text,
            trace: self.trace,
        }
    }
}

// ---------- configuration ----------

/// Id of the built-in pipeline that filters blocked words.
pub open spec fn blocklist_pipeline_id() -> Seq<char> {
    "blocklist"@
}

/// Id of the processor that filters blocked words.
pub open spec fn blocklist_processor_id() -> Seq<char> {
    "builtin.blocklist-filter"@
}

/// One processing step: which processor, with which options.
#[derive(Debug, PartialEq)]
pub struct PipelineStepConfig {
    pub id: String,
    pub processor_id: String,
    pub enabled: bool,
    /// the processor's own options, read by the processor
    pub config: JsonValue,
    pub timeout_ms: u64,
    pub on_error: StepFailurePolicy,
}

/// A linear pipeline; the order of the steps is the order they run in.
#[derive(Debug, PartialEq)]
pub struct PipelineConfig {
    pub id: String,
    pub display_name: String,
    pub steps: Vec<PipelineStepConfig>,
}

impl Default for PipelineConfig {
    fn default() -> (r: PipelineConfig)
        ensures
            r.id@ == "default"@,
            r.display_name@ == Seq::<char>::empty(),
            r.steps@.len() == 0,
    {
        PipelineConfig { id: owned("default"), display_name: String::new(), steps: Vec::new() }
    }
}

/// The name shown for a pipeline: its trimmed display name, else "屏蔽词"
/// for the built-in blocklist, "自定义" for the default id, else the id.
pub open spec fn pipeline_label(id: Seq<char>, display_name: Seq<char>) -> Seq<char> {
    let name = text::trim(display_name);
    if name.len() > 0 {
        name
    } else if id == blocklist_pipeline_id() {
        "屏蔽词"@
    } else if id == "default"@ {
        "自定义"@
    } else {
        id
    }
}

impl PipelineConfig {
    pub fn display_label(&self) -> (r: String)
        ensures
            r@ == pipeline_label(self.id@, self.display_name@),
    {
        let name = text::trim_str(self.display_name.as_str());
        if name.len() > 0 {
            return text::string_of(name.as_slice());
        }
        if text::str_eq(self.id.as_str(), "blocklist") {
            return owned("屏蔽词");
        }
        if text::str_eq(self.id.as_str(), "default") {
            return owned("自定义");
        }
        self.id.clone()
    }
}

/// The built-in pipeline: one required blocklist step with empty options.
pub open spec fn is_builtin_blocklist(p: PipelineConfig) -> bool {
    &&& p.id@ == blocklist_pipeline_id()
    &&& p.display_name@ == "屏蔽词"@
    &&& p.steps@.len() == 1
    &&& p.steps@[0].id@ == "blocklist-1"@
    &&& p.steps@[0].processor_id@ == blocklist_processor_id()
    &&& p.steps@[0].enabled
    &&& p.steps@[0].config@ == crate::json::Json::Object(Seq::empty())
    &&& p.steps@[0].timeout_ms == DEFAULT_STEP_TIMEOUT_MS
    &&& p.steps@[0].on_error == StepFailurePolicy::Required
}

pub fn builtin_blocklist_pipeline() -> (r: PipelineConfig)
    ensures
        is_builtin_blocklist(r),
{
    let empty: Vec<(String, JsonValue)> = Vec::new();
    proof {
        crate::json::lemma_object_view(empty);
        assert(crate::json::entries_view(empty@) =~= Seq::empty());
    }
    let step = PipelineStepConfig {
        id: owned("blocklist-1"),
        processor_id: owned("builtin.blocklist-filter"),
        enabled: true,
        config: JsonValue::Object(empty),
        timeout_ms: DEFAULT_STEP_TIMEOUT_MS,
        on_error: StepFailurePolicy::Required,
    };
    let mut steps: Vec<PipelineStepConfig> = Vec::new();
    steps.push(step);
    PipelineConfig { id: owned("blocklist"), display_name: owned("屏蔽词"), steps }
}

/// The post-processing switch, the active pipeline and the pipelines to
/// choose from.
#[derive(Debug, PartialEq)]
pub struct PostProcessingConfig {
    pub enabled: bool,
    pub active_pipeline_id: String,
    pub pipelines: Vec<PipelineConfig>,
}

impl Default for PostProcessingConfig {
    fn default() -> (r: PostProcessingConfig)
        ensures
            r.enabled,
            r.active_pipeline_id@ == blocklist_pipeline_id(),
            r.pipelines@.len() == 1,
            is_builtin_blocklist(r.pipelines@[0]),
    {
        let mut pipelines: Vec<PipelineConfig> = Vec::new();
        pipelines.push(builtin_blocklist_pipeline());
        PostProcessingConfig { enabled: true, active_pipeline_id: owned("blocklist"), pipelines }
    }
}

/// Position of the first pipeline with id `id`, or -1.
pub open spec fn pipeline_pos(ps: Seq<PipelineConfig>, id: Seq<char>) -> int
    decreases ps.len(),
{
    if ps.len() == 0 {
        -1
    } else if ps[0].id@ == id {
        0
    } else {
        let r = pipeline_pos(ps.drop_first(), id);
        if r < 0 {
            -1
        } else {
            r + 1
        }
    }
}

/// What `pipeline_pos` returns: the first pipeline with the id, or -1 when
/// none has it.
pub proof fn lemma_pipeline_pos(ps: Seq<PipelineConfig>, id: Seq<char>)
    ensures
        -1 <= pipeline_pos(ps, id) < ps.len(),
        pipeline_pos(ps, id) >= 0 ==> ps[pipeline_pos(ps, id)].id@ == id,
        forall|j: int| 0 <= j < pipeline_pos(ps, id) ==> (#[trigger] ps[j]).id@ != id,
        pipeline_pos(ps, id) < 0 <==> forall|j: int| 0 <= j < ps.len() ==> (#[trigger] ps[j]).id@ != id,
    decreases ps.len(),
{
    if ps.len() > 0 && ps[0].id@ != id {
        let t = ps.drop_first();
        lemma_pipeline_pos(t, id);
        assert forall|j: int| 0 < j < ps.len() implies ps[j] == t[j - 1] by {}
        if pipeline_pos(t, id) < 0 {
            assert forall|j: int| 0 <= j < ps.len() implies (#[trigger] ps[j]).id@ != id by {
                if j > 0 {
                    assert(ps[j] == t[j - 1]);
                }
            }
        } else {
            assert forall|j: int| 0 <= j < pipeline_pos(ps, id) implies (#[trigger] ps[j]).id@
                != id by {
                if j > 0 {
                    assert(ps[j] == t[j - 1]);
                }
            }
        }
    }
}

fn find_pipeline(ps: &Vec<PipelineConfig>, id: &String) -> (r: Option<usize>)
    ensures
        match r {
            Some(i) => i < ps.len() && i == pipeline_pos(ps@, id@),
            None => pipeline_pos(ps@, id@) == -1,
        },
{
    let mut i: usize = 0;
    while i < ps.len()
        invariant
            i <= ps.len(),
            forall|j: int| 0 <= j < i ==> (#[trigger] ps@[j]).id@ != id@,
        decreases ps.len() - i,
    {
        if text::str_eq(ps[i].id.as_str(), id.as_str()) {
            proof {
                lemma_pipeline_pos(ps@, id@);
                let r = pipeline_pos(ps@, id@);
                if r >= 0 && r < i {
                    assert(ps@[r].id@ != id@);
                }
            }
            return Some(i);
        }
        i += 1;
    }
    proof {
        lemma_pipeline_pos(ps@, id@);
    }
    None
}

/// Which pipeline runs: the one named active, else the first, else none.
pub open spec fn active_index(c: PostProcessingConfig) -> int {
    let i = pipeline_pos(c.pipelines@, c.active_pipeline_id@);
    if i >= 0 {
        i
    } else if c.pipelines@.len() > 0 {
        0
    } else {
        -1
    }
}

impl PostProcessingConfig {
    /// One pipeline made the only and active one; a blank display name is
    /// replaced by the pipeline's label.
    pub fn with_pipeline(enabled: bool, pipeline: PipelineConfig) -> (r: PostProcessingConfig)
        ensures
            r.enabled == enabled,
            r.active_pipeline_id@ == pipeline.id@,
            r.pipelines@.len() == 1,
            r.pipelines@[0].id@ == pipeline.id@,
            r.pipelines@[0].steps == pipeline.steps,
            r.pipelines@[0].display_name@ == if text::trim(pipeline.display_name@).len() == 0 {
                pipeline_label(pipeline.id@, pipeline.display_name@)
            } else {
                pipeline.display_name@
            },
    {
        let mut pipeline = pipeline;
        if text::is_blank(pipeline.display_name.as_str()) {
            pipeline.display_name = pipeline.display_label();
        }
        let id = pipeline.id.clone();
        let mut pipelines: Vec<PipelineConfig> = Vec::new();
        pipelines.push(pipeline);
        PostProcessingConfig { enabled, active_pipeline_id: id, pipelines }
    }

    /// The pipeline that runs (see `active_index`).
    pub fn active_pipeline(&self) -> (r: Option<&PipelineConfig>)
        ensures
            match r {
                Some(p) => active_index(*self) >= 0 && *p == self.pipelines@[active_index(*self)],
                None => active_index(*self) == -1,
            },
    {
        match find_pipeline(&self.pipelines, &self.active_pipeline_id) {
            Some(i) => Some(&self.pipelines[i]),
            None => {
                if self.pipelines.len() > 0 {
                    Some(&self.pipelines[0])
                } else {
                    None
                }
            },
        }
    }

    /// The pipeline that runs, to edit in place.
    pub fn active_pipeline_mut(&mut self) -> (r: Option<&mut PipelineConfig>)
        ensures
            match r {
                Some(p) => {
                    &&& active_index(*old(self)) >= 0
                    &&& *p == old(self).pipelines@[active_index(*old(self))]
                    &&& final(self).pipelines@ == old(self).pipelines@.update(
                        active_index(*old(self)),
                        *final(p),
                    )
                    &&& final(self).enabled == old(self).enabled
                    &&& final(self).active_pipeline_id == old(self).active_pipeline_id
                },
                None => active_index(*old(self)) == -1 && *final(self) == *old(self),
            },
    {
        let i = match find_pipeline(&self.pipelines, &self.active_pipeline_id) {
            Some(i) => i,
            None => {
                if self.pipelines.len() > 0 {
                    0
                } else {
                    return None;
                }
            },
        };
        Some(&mut self.pipelines[i])
    }

    /// Makes the active id name an existing pipeline: kept when some pipeline
    /// has it, else the first pipeline's id; with no pipeline at all the
    /// whole configuration becomes the default.
    pub fn normalize_active_id(&mut self)
        ensures
            pipeline_pos(old(self).pipelines@, old(self).active_pipeline_id@) >= 0 ==> *final(self)
                == *old(self),
            pipeline_pos(old(self).pipelines@, old(self).active_pipeline_id@) < 0 && old(
                self,
            ).pipelines@.len() > 0 ==> {
                &&& final(self).enabled == old(self).enabled
                &&& final(self).pipelines == old(self).pipelines
                &&& final(self).active_pipeline_id@ == old(self).pipelines@[0].id@
            },
            old(self).pipelines@.len() == 0 ==> {
                &&& final(self).enabled
                &&& final(self).active_pipeline_id@ == blocklist_pipeline_id()
                &&& final(self).pipelines@.len() == 1
                &&& is_builtin_blocklist(final(self).pipelines@[0])
            },
            pipeline_pos(final(self).pipelines@, final(self).active_pipeline_id@) >= 0,
            active_index(*final(self)) == pipeline_pos(
                final(self).pipelines@,
                final(self).active_pipeline_id@,
            ),
    {
        match find_pipeline(&self.pipelines, &self.active_pipeline_id) {
            Some(_) => {},
            None => {
                if self.pipelines.len() > 0 {
                    self.active_pipeline_id = self.pipelines[0].id.clone();
                    proof {
                        lemma_pipeline_pos(self.pipelines@, self.active_pipeline_id@);
                        assert(self.pipelines@[0].id@ == self.active_pipeline_id@);
                    }
                } else {
                    *self = PostProcessingConfig::default();
                    proof {
                        lemma_pipeline_pos(self.pipelines@, self.active_pipeline_id@);
                        assert(self.pipelines@[0].id@ == self.active_pipeline_id@);
                    }
                }
            },
        }
    }
}

// ---------- the processor registry ----------

/// The descriptors' ids are in strictly increasing order.
pub open spec fn ids_sorted(ds: Seq<ProcessorDescriptor>) -> bool {
    forall|i: int, j: int|
        0 <= i < j < ds.len() ==> text::str_less(#[trigger] ds[i].id@, #[trigger] ds[j].id@)
}

/// Some descriptor has the id.
pub open spec fn has_id(ds: Seq<ProcessorDescriptor>, id: Seq<char>) -> bool {
    exists|i: int| 0 <= i < ds.len() && (#[trigger] ds[i]).id@ == id
}

/// Where a new id goes in sorted order: before the first id that does not
/// sort before it.
pub open spec fn insert_pos(ds: Seq<ProcessorDescriptor>, id: Seq<char>) -> int
    decreases ds.len(),
{
    if ds.len() == 0 {
        0
    } else if !text::str_less(ds[0].id@, id) {
        0
    } else {
        insert_pos(ds.drop_first(), id) + 1
    }
}

pub proof fn lemma_insert_pos(ds: Seq<ProcessorDescriptor>, id: Seq<char>)
    ensures
        0 <= insert_pos(ds, id) <= ds.len(),
        forall|j: int| 0 <= j < insert_pos(ds, id) ==> text::str_less((#[trigger] ds[j]).id@, id),
        insert_pos(ds, id) < ds.len() ==> !text::str_less(ds[insert_pos(ds, id)].id@, id),
    decreases ds.len(),
{
    if ds.len() > 0 && text::str_less(ds[0].id@, id) {
        let t = ds.drop_first();
        lemma_insert_pos(t, id);
        assert forall|j: int| 0 <= j < insert_pos(ds, id) implies text::str_less(
            (#[trigger] ds[j]).id@,
            id,
        ) by {
            if j > 0 {
                assert(ds[j] == t[j - 1]);
            }
        }
        if insert_pos(ds, id) < ds.len() {
            assert(ds[insert_pos(ds, id)] == t[insert_pos(t, id)]);
        }
    }
}

/// Inserting a new id at its sorted place keeps the ids sorted.
pub proof fn lemma_insert_sorted(ds: Seq<ProcessorDescriptor>, d: ProcessorDescriptor)
    requires
        ids_sorted(ds),
        !has_id(ds, d.id@),
    ensures
        ids_sorted(ds.insert(insert_pos(ds, d.id@), d)),
{
    let p = insert_pos(ds, d.id@);
    lemma_insert_pos(ds, d.id@);
    let r = ds.insert(p, d);
    if p < ds.len() {
        assert(ds[p].id@ != d.id@);
        text::lemma_str_less_total(ds[p].id@, d.id@);
    }
    assert forall|i: int, j: int| 0 <= i < j < r.len() implies text::str_less(
        #[trigger] r[i].id@,
        #[trigger] r[j].id@,
    ) by {
        if j < p {
            assert(r[i] == ds[i] && r[j] == ds[j]);
        } else if j == p {
            assert(r[i] == ds[i]);
        } else if i == p {
            assert(r[j] == ds[j - 1]);
            if j - 1 > p {
                text::lemma_str_less_transitive(d.id@, ds[p].id@, ds[j - 1].id@);
            }
        } else if i < p {
            assert(r[i] == ds[i] && r[j] == ds[j - 1]);
        } else {
            assert(r[i] == ds[i - 1] && r[j] == ds[j - 1]);
        }
    }
}

/// In a registry no two processors share an id, so a lookup by id is exact.
pub proof fn law_registry_ids_unique(ds: Seq<ProcessorDescriptor>)
    requires
        ids_sorted(ds),
    ensures
        forall|i: int, j: int|
            0 <= i < ds.len() && 0 <= j < ds.len() && (#[trigger] ds[i]).id@ == (#[trigger] ds[j]).id@
                ==> i == j,
{
    assert forall|i: int, j: int|
        0 <= i < ds.len() && 0 <= j < ds.len() && (#[trigger] ds[i]).id@ == (#[trigger] ds[j]).id@
        implies i == j by {
        text::lemma_str_less_asymmetric(ds[i].id@, ds[j].id@);
        if i < j {
            assert(text::str_less(ds[i].id@, ds[j].id@));
        } else if j < i {
            assert(text::str_less(ds[j].id@, ds[i].id@));
        }
    }
}

/// A processor registered under a new id is the only one with that id
/// afterwards: looking the id up finds exactly it.
pub proof fn law_registered_processor_is_found(ds: Seq<ProcessorDescriptor>, d: ProcessorDescriptor)
    requires
        ids_sorted(ds),
        !has_id(ds, d.id@),
    ensures
        has_id(ds.insert(insert_pos(ds, d.id@), d), d.id@),
        forall|i: int|
            0 <= i < ds.len() + 1 && (#[trigger] ds.insert(insert_pos(ds, d.id@), d)[i]).id@
                == d.id@ ==> ds.insert(insert_pos(ds, d.id@), d)[i] == d,
{
    lemma_insert_pos(ds, d.id@);
    let p = insert_pos(ds, d.id@);
    let r = ds.insert(p, d);
    assert(r[p] == d);
    assert forall|i: int| 0 <= i < ds.len() + 1 && (#[trigger] r[i]).id@ == d.id@ implies r[i]
        == d by {
        if i < p {
            assert(r[i] == ds[i]);
        } else if i > p {
            assert(r[i] == ds[i - 1]);
        }
    }
}

/// The processors available to pipelines, each by its descriptor, in id
/// order; an id is registered at most once.
pub struct ProcessorRegistry {
    descriptors: Vec<ProcessorDescriptor>,
}

impl View for ProcessorRegistry {
    type V = Seq<ProcessorDescriptor>;

    closed spec fn view(&self) -> Seq<ProcessorDescriptor> {
        self.descriptors@
    }
}

impl ProcessorRegistry {
    #[verifier::type_invariant]
    spec fn sorted(self) -> bool {
        ids_sorted(self.descriptors@)
    }

    pub fn new() -> (r: ProcessorRegistry)
        ensures
            r@.len() == 0,
    {
        ProcessorRegistry { descriptors: Vec::new() }
    }

    /// Adds a processor; a blank id or an id already registered is refused,
    /// so the order of registration never swaps one implementation for
    /// another.
    pub fn register(&mut self, descriptor: ProcessorDescriptor) -> (r: Result<(), String>)
        ensures
            ids_sorted(final(self)@),
            text::trim(descriptor.id@).len() == 0 ==> {
                &&& r matches Err(e) && e@ == "后处理器 ID 不能为空"@
                &&& final(self)@ == old(self)@
            },
            text::trim(descriptor.id@).len() > 0 && has_id(old(self)@, descriptor.id@) ==> {
                &&& r matches Err(e) && e@ == "重复注册后处理器: "@ + descriptor.id@
                &&& final(self)@ == old(self)@
            },
            text::trim(descriptor.id@).len() > 0 && !has_id(old(self)@, descriptor.id@) ==> {
                &&& r is Ok
                &&& final(self)@ == old(self)@.insert(
                    insert_pos(old(self)@, descriptor.id@),
                    descriptor,
                )
            },
    {
        proof {
            use_type_invariant(&*self);
        }
        if text::is_blank(descriptor.id.as_str()) {
            return Err(owned("后处理器 ID 不能为空"));
        }
        let mut ds: Vec<ProcessorDescriptor> = Vec::new();
        std::mem::swap(&mut ds, &mut self.descriptors);
        let ghost old_ds = ds@;
        let id = text::chars_of(descriptor.id.as_str());
        let mut i: usize = 0;
        while i < ds.len()
            invariant
                ds@ == old_ds,
                ids_sorted(old_ds),
                i <= ds.len(),
                id@ == descriptor.id@,
                forall|j: int| 0 <= j < i ==> text::str_less((#[trigger] ds@[j]).id@, id@),
            ensures
                ds@ == old_ds,
                i <= ds.len(),
                forall|j: int| 0 <= j < i ==> text::str_less((#[trigger] ds@[j]).id@, id@),
                i < ds.len() ==> !text::str_less(ds@[i as int].id@, id@),
            decreases ds.len() - i,
        {
            let other = text::chars_of(ds[i].id.as_str());
            if !text::str_less_exec(other.as_slice(), id.as_slice()) {
                break;
            }
            i += 1;
        }
        proof {
            lemma_insert_pos(old_ds, id@);
            let p = insert_pos(old_ds, id@);
            if p < i {
                assert(text::str_less(old_ds[p].id@, id@));
            }
            if i < p {
                assert(text::str_less(old_ds[i as int].id@, id@));
            }
        }
        let dup = i < ds.len() && text::str_eq(ds[i].id.as_str(), descriptor.id.as_str());
        proof {
            if !dup && has_id(old_ds, id@) {
                let k = choose|k: int| 0 <= k < old_ds.len() && (#[trigger] old_ds[k]).id@ == id@;
                if k < i {
                    text::lemma_str_less_asymmetric(id@, id@);
                } else if k > i {
                    text::lemma_str_less_total(old_ds[i as int].id@, id@);
                    text::lemma_str_less_asymmetric(old_ds[i as int].id@, id@);
                    text::lemma_str_less_asymmetric(id@, id@);
                    text::lemma_str_less_transitive(id@, old_ds[i as int].id@, old_ds[k].id@);
                }
            }
        }
        if dup {
            assert(ids_sorted(ds@));
            self.descriptors = ds;
            let mut msg = owned("重复注册后处理器: ");
            text::push_str(&mut msg, descriptor.id.as_str());
            return Err(msg);
        }
        proof {
            lemma_insert_sorted(old_ds, descriptor);
        }
        ds.insert(i, descriptor);
        self.descriptors = ds;
        Ok(())
    }

    /// The processor registered under `id`.
    pub fn get(&self, id: &str) -> (r: Option<&ProcessorDescriptor>)
        ensures
            ids_sorted(self@),
            match r {
                Some(d) => d.id@ == id@ && exists|i: int|
                    0 <= i < self@.len() && self@[i] == *d,
                None => !has_id(self@, id@),
            },
    {
        proof {
            use_type_invariant(self);
        }
        let mut i: usize = 0;
        while i < self.descriptors.len()
            invariant
                i <= self.descriptors.len(),
                ids_sorted(self.descriptors@),
                forall|j: int| 0 <= j < i ==> (#[trigger] self.descriptors@[j]).id@ != id@,
            decreases self.descriptors.len() - i,
        {
            if text::str_eq(self.descriptors[i].id.as_str(), id) {
                assert(self@[i as int] == self.descriptors@[i as int]);
                return Some(&self.descriptors[i]);
            }
            i += 1;
        }
        None
    }

    /// Every registered processor, in id order.
    pub fn list_info(&self) -> (r: &Vec<ProcessorDescriptor>)
        ensures
            r@ == self@,
            ids_sorted(r@),
    {
        proof {
            use_type_invariant(self);
        }
        &self.descriptors
    }
}

// ---------- compiling a pipeline ----------

/// What compiling a pipeline decides before the processors are built: the
/// pipeline that runs, the steps to build in order, and the refusal met at
/// the first step that cannot be built, if any. The application builds the
/// listed steps in order with their factories, then reports the refusal.
pub struct CompilePlan {
    pub pipeline_id: String,
    /// positions of the steps to build in the running pipeline's steps
    pub steps: Vec<usize>,
    pub failure: Option<String>,
}

/// The first `n` steps planned: disabled steps are skipped; a step with a
/// blank id or an unregistered processor stops the plan with its refusal.
pub open spec fn planned_steps(
    steps: Seq<PipelineStepConfig>,
    reg: Seq<ProcessorDescriptor>,
    n: nat,
) -> (Seq<usize>, Option<Seq<char>>)
    decreases n,
{
    if n == 0 || n > steps.len() {
        (Seq::empty(), None)
    } else {
        let prev = planned_steps(steps, reg, (n - 1) as nat);
        let s = steps[n - 1];
        if prev.1 is Some || !s.enabled {
            prev
        } else if text::trim(s.id@).len() == 0 {
            (prev.0, Some("后处理 step ID 不能为空"@))
        } else if !has_id(reg, s.processor_id@) {
            (prev.0, Some("未注册的后处理器: "@ + s.processor_id@))
        } else {
            (prev.0.push((n - 1) as usize), None)
        }
    }
}

/// Plans the compilation of the running pipeline (see `active_index`; the
/// default pipeline when there is none). Nothing is built while
/// post-processing is switched off.
pub fn plan_compile(config: &PostProcessingConfig, registry: &ProcessorRegistry) -> (r: CompilePlan)
    ensures
        r.pipeline_id@ == if active_index(*config) >= 0 {
            config.pipelines@[active_index(*config)].id@
        } else {
            "default"@
        },
        !config.enabled || active_index(*config) < 0 ==> r.steps@.len() == 0 && r.failure
            is None,
        config.enabled && active_index(*config) >= 0 ==> {
            let steps = config.pipelines@[active_index(*config)].steps@;
            let plan = planned_steps(steps, registry@, steps.len());
            &&& r.steps@ == plan.0
            &&& match r.failure {
                Some(f) => plan.1 == Some(f@),
                None => plan.1 is None,
            }
        },
{
    match config.active_pipeline() {
        None => CompilePlan { pipeline_id: owned("default"), steps: Vec::new(), failure: None },
        Some(pipeline) => {
            let mut planned: Vec<usize> = Vec::new();
            let mut failure: Option<String> = None;
            if config.enabled {
                let mut i: usize = 0;
                while i < pipeline.steps.len()
                    invariant
                        i <= pipeline.steps.len(),
                        planned@ == planned_steps(pipeline.steps@, registry@, i as nat).0,
                        match failure {
                            Some(f) => planned_steps(pipeline.steps@, registry@, i as nat).1
                                == Some(f@),
                            None => planned_steps(pipeline.steps@, registry@, i as nat).1 is None,
                        },
                    decreases pipeline.steps.len() - i,
                {
                    let step = &pipeline.steps[i];
                    if failure.is_none() && step.enabled {
                        if text::is_blank(step.id.as_str()) {
                            failure = Some(owned("后处理 step ID 不能为空"));
                        } else {
                            match registry.get(step.processor_id.as_str()) {
                                None => {
                                    let mut msg = owned("未注册的后处理器: ");
                                    text::push_str(&mut msg, step.processor_id.as_str());
                                    failure = Some(msg);
                                },
                                Some(_) => {
                                    planned.push(i);
                                },
                            }
                        }
                    }
                    i += 1;
                }
            }
            CompilePlan { pipeline_id: pipeline.id.clone(), steps: planned, failure }
        },
    }
}

} // verus!
