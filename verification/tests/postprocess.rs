use kotone::json::JsonValue;
use kotone::postprocess::{
    builtin_blocklist_pipeline, plan_compile, NetworkAccess, PipelineConfig, PipelineRun,
    PipelineStepConfig, PipelineStepOutcome, PostProcessingConfig, ProcessError, ProcessErrorKind,
    ProcessorCategory, ProcessorDescriptor, ProcessorRegistry, StepFailurePolicy, StepInfo,
    StepStart, StepVerdict, TextDocument,
};

fn step(id: &str, on_error: StepFailurePolicy) -> StepInfo {
    StepInfo {
        step_id: id.into(),
        processor_id: "test.noop".into(),
        display_name: "Noop".into(),
        on_error,
        timeout_ms: 1000,
    }
}

fn doc(source: &str, text: &str) -> TextDocument {
    TextDocument {
        source_text: source.into(),
        text: text.into(),
    }
}

#[test]
fn recognized_document_starts_equal() {
    let d = TextDocument::recognized("原文");
    assert_eq!(d.source_text, "原文");
    assert_eq!(d.text, "原文");
    let e = ProcessError::failed("boom");
    assert_eq!(e.kind, ProcessErrorKind::Failed);
    assert_eq!(e.message, "boom");
    assert_eq!(StepFailurePolicy::default(), StepFailurePolicy::Required);
}

#[test]
fn successful_steps_replace_the_text() {
    let mut run = PipelineRun::start("a", vec![step("s1", StepFailurePolicy::Required)]);
    let v = run.apply(5, Ok(doc("a", "b")));
    assert!(matches!(v, StepVerdict::Continue));
    let result = run.finish("p");
    assert_eq!(result.final_text, "b");
    assert_eq!(result.source_text, "a");
    assert_eq!(result.trace.len(), 1);
    assert_eq!(result.trace[0].outcome, PipelineStepOutcome::Succeeded);
}

#[test]
fn best_effort_failure_keeps_previous_text() {
    let mut run = PipelineRun::start("a", vec![step("s1", StepFailurePolicy::BestEffort)]);
    let v = run.apply(5, Err(ProcessError::failed("down")));
    assert!(matches!(v, StepVerdict::Continue));
    assert_eq!(run.document.text, "a");
    assert_eq!(run.trace[0].error.as_deref(), Some("down"));
}

#[test]
fn required_blank_output_stops_with_invalid_output() {
    let mut run = PipelineRun::start("a", vec![step("s1", StepFailurePolicy::Required)]);
    match run.apply(5, Ok(doc("a", "   "))) {
        StepVerdict::Stop(e) => {
            assert_eq!(e.kind, ProcessErrorKind::InvalidOutput);
            assert_eq!(e.message, "处理器返回了空文本");
            assert_eq!(e.trace.len(), 1);
            assert_eq!(e.step_id, "s1");
        }
        StepVerdict::Continue => panic!("must stop"),
    }
}

#[test]
fn cancellation_stops_without_a_trace_entry() {
    let mut run = PipelineRun::start(
        "a",
        vec![
            step("s1", StepFailurePolicy::Required),
            step("s2", StepFailurePolicy::BestEffort),
        ],
    );
    run.apply(1, Ok(doc("a", "b")));
    let cancelled = ProcessError {
        kind: ProcessErrorKind::Cancelled,
        message: "x".into(),
    };
    match run.apply(1, Err(cancelled)) {
        StepVerdict::Stop(e) => {
            assert_eq!(e.kind, ProcessErrorKind::Cancelled);
            assert_eq!(e.message, "后处理已取消");
            assert_eq!(e.trace.len(), 1);
        }
        StepVerdict::Continue => panic!("must stop"),
    }
    assert_eq!(run.trace.len(), 1);
}

fn descriptor(id: &str) -> ProcessorDescriptor {
    ProcessorDescriptor {
        id: id.into(),
        display_name: "Noop".into(),
        description: String::new(),
        category: ProcessorCategory::Utility,
        developer_only: true,
        network_access: NetworkAccess::Off,
        config_fields: Vec::new(),
    }
}

fn config_step(id: &str, processor_id: &str, enabled: bool) -> PipelineStepConfig {
    PipelineStepConfig {
        id: id.into(),
        processor_id: processor_id.into(),
        enabled,
        config: JsonValue::Null,
        timeout_ms: 1_000,
        on_error: StepFailurePolicy::Required,
    }
}

#[test]
fn default_is_enabled_blocklist_pipeline() {
    let config = PostProcessingConfig::default();
    assert!(config.enabled);
    assert_eq!(config.active_pipeline_id, "blocklist");
    let pipeline = config.active_pipeline().unwrap();
    assert_eq!(pipeline.display_name, "屏蔽词");
    assert_eq!(pipeline.steps[0].processor_id, "builtin.blocklist-filter");
}

#[test]
fn compile_uses_the_active_pipeline_not_the_first() {
    let mut registry = ProcessorRegistry::new();
    registry.register(descriptor("test.noop")).unwrap();
    let config = PostProcessingConfig {
        enabled: true,
        active_pipeline_id: "second".into(),
        pipelines: vec![
            PipelineConfig {
                id: "first".into(),
                display_name: "一".into(),
                steps: vec![],
            },
            PipelineConfig {
                id: "second".into(),
                display_name: "二".into(),
                steps: vec![config_step("n1", "test.noop", true)],
            },
        ],
    };
    let plan = plan_compile(&config, &registry);
    assert_eq!(plan.steps.len(), 1);
    assert_eq!(plan.pipeline_id, "second");
    assert!(plan.failure.is_none());
}

#[test]
fn compile_skips_disabled_steps_and_stops_at_the_first_refusal() {
    let mut registry = ProcessorRegistry::new();
    registry.register(descriptor("test.noop")).unwrap();
    let config = PostProcessingConfig {
        enabled: true,
        active_pipeline_id: "p".into(),
        pipelines: vec![PipelineConfig {
            id: "p".into(),
            display_name: String::new(),
            steps: vec![
                config_step("a", "test.noop", true),
                config_step("b", "missing", false),
                config_step("c", "missing", true),
                config_step(" ", "test.noop", true),
            ],
        }],
    };
    let plan = plan_compile(&config, &registry);
    assert_eq!(plan.steps, vec![0]);
    assert_eq!(plan.failure.as_deref(), Some("未注册的后处理器: missing"));

    let config = PostProcessingConfig {
        enabled: true,
        active_pipeline_id: "p".into(),
        pipelines: vec![PipelineConfig {
            id: "p".into(),
            display_name: String::new(),
            steps: vec![config_step("", "test.noop", true)],
        }],
    };
    let plan = plan_compile(&config, &registry);
    assert!(plan.steps.is_empty());
    assert_eq!(plan.failure.as_deref(), Some("后处理 step ID 不能为空"));
}

#[test]
fn disabled_post_processing_compiles_nothing() {
    let registry = ProcessorRegistry::new();
    let mut config = PostProcessingConfig::default();
    config.enabled = false;
    let plan = plan_compile(&config, &registry);
    assert!(plan.steps.is_empty());
    assert!(plan.failure.is_none());
    assert_eq!(plan.pipeline_id, "blocklist");

    let empty = PostProcessingConfig {
        enabled: true,
        active_pipeline_id: "x".into(),
        pipelines: vec![],
    };
    let plan = plan_compile(&empty, &registry);
    assert_eq!(plan.pipeline_id, "default");
    assert!(plan.steps.is_empty());
}

#[test]
fn registry_refuses_blank_and_duplicate_ids_and_lists_by_id() {
    let mut registry = ProcessorRegistry::new();
    assert_eq!(registry.register(descriptor("  ")).unwrap_err(), "后处理器 ID 不能为空");
    registry.register(descriptor("zeta")).unwrap();
    registry.register(descriptor("alpha")).unwrap();
    registry.register(descriptor("mid")).unwrap();
    assert_eq!(
        registry.register(descriptor("mid")).unwrap_err(),
        "重复注册后处理器: mid"
    );
    let ids: Vec<&str> = registry.list_info().iter().map(|d| d.id.as_str()).collect();
    assert_eq!(ids, ["alpha", "mid", "zeta"]);
    assert_eq!(registry.get("mid").unwrap().id, "mid");
    assert!(registry.get("nope").is_none());
}

#[test]
fn active_pipeline_falls_back_to_the_first() {
    let config = PostProcessingConfig {
        enabled: true,
        active_pipeline_id: "gone".into(),
        pipelines: vec![builtin_blocklist_pipeline(), PipelineConfig::default()],
    };
    assert_eq!(config.active_pipeline().unwrap().id, "blocklist");
    let none = PostProcessingConfig {
        enabled: true,
        active_pipeline_id: "gone".into(),
        pipelines: vec![],
    };
    assert!(none.active_pipeline().is_none());
}

#[test]
fn normalizing_points_the_active_id_at_a_pipeline() {
    let mut config = PostProcessingConfig {
        enabled: false,
        active_pipeline_id: "gone".into(),
        pipelines: vec![PipelineConfig::default()],
    };
    config.normalize_active_id();
    assert_eq!(config.active_pipeline_id, "default");
    assert!(!config.enabled);

    let mut empty = PostProcessingConfig {
        enabled: false,
        active_pipeline_id: "gone".into(),
        pipelines: vec![],
    };
    empty.normalize_active_id();
    assert_eq!(empty, PostProcessingConfig::default());

    let mut kept = PostProcessingConfig::default();
    kept.normalize_active_id();
    assert_eq!(kept, PostProcessingConfig::default());
}

#[test]
fn labels_and_single_pipeline_configs() {
    let mut p = PipelineConfig::default();
    assert_eq!(p.display_label(), "自定义");
    p.id = "blocklist".into();
    assert_eq!(p.display_label(), "屏蔽词");
    p.id = "mine".into();
    assert_eq!(p.display_label(), "mine");
    p.display_name = "  Mine  ".into();
    assert_eq!(p.display_label(), "Mine");

    let wrapped = PostProcessingConfig::with_pipeline(
        true,
        PipelineConfig {
            id: "mine".into(),
            display_name: String::new(),
            steps: vec![config_step("s1", "mock.append-exclamation", true)],
        },
    );
    assert!(wrapped.enabled);
    assert_eq!(wrapped.active_pipeline_id, "mine");
    assert_eq!(wrapped.pipelines.len(), 1);
    assert_eq!(wrapped.pipelines[0].display_name, "mine");
    assert_eq!(wrapped.pipelines[0].steps[0].processor_id, "mock.append-exclamation");
}

#[test]
fn the_active_pipeline_can_be_edited_in_place() {
    let mut config = PostProcessingConfig {
        enabled: true,
        active_pipeline_id: "second".into(),
        pipelines: vec![
            PipelineConfig::default(),
            PipelineConfig {
                id: "second".into(),
                display_name: "二".into(),
                steps: vec![],
            },
        ],
    };
    config.active_pipeline_mut().unwrap().display_name = "2".into();
    assert_eq!(config.pipelines[1].display_name, "2");
    assert_eq!(config.pipelines[0].display_name, "");
    let mut none = PostProcessingConfig {
        enabled: true,
        active_pipeline_id: "x".into(),
        pipelines: vec![],
    };
    assert!(none.active_pipeline_mut().is_none());
}

#[test]
fn a_timed_out_step_fails_with_its_limit() {
    let e = ProcessError::timed_out(1500);
    assert_eq!(e.kind, ProcessErrorKind::Failed);
    assert_eq!(e.message, "处理超时（1500ms）");
    assert_eq!(ProcessError::timed_out(0).message, "处理超时（1ms）");
}

#[test]
fn trace_entries_and_errors_name_their_step() {
    let s1 = StepInfo {
        step_id: "s1".into(),
        processor_id: "p.one".into(),
        display_name: "One".into(),
        on_error: StepFailurePolicy::Required,
        timeout_ms: 0,
    };
    let p = PipelineRun::progress(&s1, 0, 2);
    assert_eq!((p.step_id.as_str(), p.index, p.total), ("s1", 1, 2));
    let mut run = PipelineRun::start("原文", vec![s1]);
    let v = run.apply(5, Err(ProcessError::timed_out(0)));
    assert_eq!(run.trace[0].step_id, "s1");
    assert_eq!(run.trace[0].processor_id, "p.one");
    assert_eq!(run.trace[0].duration_ms, 5);
    match v {
        StepVerdict::Stop(e) => {
            assert_eq!(e.step_id, "s1");
            assert_eq!(e.processor_id, "p.one");
            assert_eq!(e.message, "处理超时（1ms）");
        }
        StepVerdict::Continue => panic!("a required step stops the run"),
    }
}

#[test]
fn the_run_walks_the_steps_in_order_and_stops_on_cancel() {
    let steps = vec![
        step("s1", StepFailurePolicy::BestEffort),
        step("s2", StepFailurePolicy::Required),
    ];
    assert_eq!(steps[0].time_limit_ms(), 1000);
    assert_eq!(steps[1].step_id, "s2");
    let mut zero = step("z", StepFailurePolicy::Required);
    zero.timeout_ms = 0;
    assert_eq!(zero.time_limit_ms(), 1);

    let mut run = PipelineRun::start("原文", steps);
    match run.next_step(false) {
        StepStart::Run(p) => assert_eq!((p.step_id.as_str(), p.index, p.total), ("s1", 1, 2)),
        _ => panic!("the first step starts"),
    }
    let v = run.apply(3, Ok(doc("原文", "改写")));
    assert!(matches!(v, StepVerdict::Continue));
    match run.next_step(false) {
        StepStart::Run(p) => assert_eq!((p.step_id.as_str(), p.index, p.total), ("s2", 2, 2)),
        _ => panic!("the second step starts"),
    }
    match run.next_step(true) {
        StepStart::Cancelled(e) => {
            assert_eq!(e.step_id, "s2");
            assert_eq!(e.kind, ProcessErrorKind::Cancelled);
            assert_eq!(e.message, "后处理已取消");
            assert_eq!(e.trace.len(), 1);
            assert_eq!(e.trace[0].step_id, "s1");
        }
        _ => panic!("a cancelled run stops before the step"),
    }
    let v = run.apply(4, Ok(doc("原文", "终稿")));
    assert!(matches!(v, StepVerdict::Continue));
    assert!(matches!(run.next_step(true), StepStart::Done));
    let r = run.finish("p");
    assert_eq!(r.final_text, "终稿");
    assert_eq!(r.source_text, "原文");
    let ids: Vec<&str> = r.trace.iter().map(|t| t.step_id.as_str()).collect();
    assert_eq!(ids, vec!["s1", "s2"]);
}
