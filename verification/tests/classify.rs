use gateway_admission::classify::{
    external_workers_admitted, first_owned_by, is_local_owner, is_server_error, local_backend,
    models_probe, models_request, probe_models_owned_by, probe_of, providers_disabled, AppContext, Basis, Classification,
    ClassifyWorkerTypeStep, ModelsReply, ProbeReplies, Provider, RuntimeType, StepResult,
    WorkerConfig, WorkerKind, WorkerWorkflowData, WorkflowError, CLASSIFY_PROBE_TIMEOUT_SECS,
};
use gateway_admission::json::{parse_json, Json};

fn context_for(url: &str, runtime_type: RuntimeType, providers: bool) -> WorkerWorkflowData {
    WorkerWorkflowData {
        config: WorkerConfig { url: url.to_string(), runtime_type, api_key: None },
        app_context: Some(AppContext { providers_enabled: providers }),
        worker_kind: None,
    }
}

fn silent() -> ProbeReplies {
    ProbeReplies { health: false, grpc: false, models: ModelsReply::NoAnswer }
}

fn answer(status: u16, body: &str) -> ModelsReply {
    ModelsReply::Answer { status, body: Some(body.as_bytes().to_vec()) }
}

#[test]
fn external_workers_are_refused_unless_providers_are_enabled() {
    let step = ClassifyWorkerTypeStep;
    let explicit = ("https://example.internal:8443", RuntimeType::External);
    let provider_url = ("https://api.anthropic.com", RuntimeType::Unspecified);

    for (url, runtime) in [explicit, provider_url] {
        let mut ctx = context_for(url, runtime, false);
        assert!(matches!(
            step.execute(&mut ctx, &silent()),
            Err(WorkflowError::StepFailed { .. })
        ));
        assert_eq!(ctx.worker_kind, None);
    }

    for (url, runtime) in [explicit, provider_url] {
        let mut ctx = context_for(url, runtime, true);
        assert!(matches!(
            step.execute(&mut ctx, &silent()),
            Ok(StepResult::Success)
        ));
        assert_eq!(ctx.worker_kind, Some(WorkerKind::External));
    }
}

#[test]
fn probe_models_owned_by_accepts_nvidia_as_local() {
    let reply = answer(
        200,
        r#"{"data": [{"id": "test-model", "object": "model", "owned_by": "nvidia"}], "object": "list"}"#,
    );
    let owned_by = probe_models_owned_by(&reply).unwrap();
    assert_eq!(owned_by, "nvidia");
}

#[test]
fn every_known_provider_is_told_by_its_host() {
    let step = ClassifyWorkerTypeStep;
    for (url, name) in [
        ("https://api.openai.com/v1", "OpenAI"),
        ("https://api.x.ai", "XAI"),
        ("https://API.ANTHROPIC.COM", "Anthropic"),
        ("https://generativelanguage.googleapis.com", "Gemini"),
    ] {
        let mut ctx = context_for(url, RuntimeType::Unspecified, true);
        match step.begin(&mut ctx) {
            Classification::Classified(Basis::ProviderUrl(provider)) => {
                assert_eq!(format!("{provider:?}"), name)
            }
            other => panic!("{url} gave {other:?}"),
        }
        assert_eq!(ctx.worker_kind, Some(WorkerKind::External));
    }
    for url in ["http://127.0.0.1:8000", "api.openai.com", "", "http://openai.com.evil.example"] {
        let mut ctx = context_for(url, RuntimeType::Unspecified, true);
        assert!(matches!(step.begin(&mut ctx), Classification::ProbeHealth(_)));
        assert_eq!(ctx.worker_kind, None);
    }
}

#[test]
fn an_explicit_local_runtime_decides_without_a_probe() {
    let step = ClassifyWorkerTypeStep;
    for runtime in [
        RuntimeType::Sglang,
        RuntimeType::Vllm,
        RuntimeType::Trtllm,
        RuntimeType::Mlx,
        RuntimeType::TokenSpeed,
        RuntimeType::Generic,
    ] {
        assert!(runtime.is_specified());
        let mut ctx = context_for("https://api.openai.com", runtime, false);
        ctx.app_context = None;
        assert!(matches!(
            step.begin(&mut ctx),
            Classification::Classified(Basis::Runtime)
        ));
        assert_eq!(ctx.worker_kind, Some(WorkerKind::Local));
    }
    assert!(!RuntimeType::Unspecified.is_specified());
}

#[test]
fn without_a_context_nothing_external_is_admitted_and_nothing_is_probed() {
    let step = ClassifyWorkerTypeStep;
    for (url, runtime) in [
        ("http://w:1", RuntimeType::External),
        ("https://api.openai.com", RuntimeType::Unspecified),
    ] {
        let mut ctx = context_for(url, runtime, true);
        ctx.app_context = None;
        assert!(!external_workers_admitted(&ctx));
        match step.execute(&mut ctx, &silent()) {
            Err(WorkflowError::StepFailed { step_id, .. }) => {
                assert_eq!(step_id, "classify_worker_type")
            }
            other => panic!("{other:?}"),
        }
        assert_eq!(ctx.worker_kind, None);
    }
    let mut ctx = context_for("http://w:1", RuntimeType::Unspecified, true);
    ctx.app_context = None;
    match step.execute(&mut ctx, &silent()) {
        Err(WorkflowError::ContextValueNotFound(name)) => assert_eq!(name, "app_context"),
        other => panic!("{other:?}"),
    }
    assert_eq!(ctx.worker_kind, None);
}

#[test]
fn a_refusal_says_how_to_admit_external_workers() {
    match providers_disabled("http://w:1") {
        WorkflowError::StepFailed { step_id, message } => {
            assert_eq!(step_id, "classify_worker_type");
            assert_eq!(
                message,
                "worker http://w:1 targets a third-party provider, but provider routing is \
                 disabled; start the gateway with --enable-providers to admit external workers"
            );
        }
        other => panic!("{other:?}"),
    }
}

#[test]
fn probes_are_asked_for_in_turn() {
    let step = ClassifyWorkerTypeStep;
    let fresh = || context_for("http://w:1", RuntimeType::Unspecified, false);

    let mut ctx = fresh();
    assert!(matches!(step.begin(&mut ctx), Classification::ProbeHealth(_)));
    assert!(matches!(step.after_health(&mut ctx, false), Classification::ProbeGrpc(_)));
    assert!(matches!(step.after_grpc(&mut ctx, false), Classification::ProbeModels(_)));
    assert_eq!(ctx.worker_kind, None);
    assert!(matches!(
        step.after_models(&mut ctx, &ModelsReply::NoAnswer),
        Classification::Classified(Basis::Default)
    ));
    assert_eq!(ctx.worker_kind, Some(WorkerKind::Local));

    let mut ctx = fresh();
    assert!(matches!(
        step.after_health(&mut ctx, true),
        Classification::Classified(Basis::Health)
    ));
    assert_eq!(ctx.worker_kind, Some(WorkerKind::Local));

    let mut ctx = fresh();
    assert!(matches!(
        step.after_grpc(&mut ctx, true),
        Classification::Classified(Basis::Grpc)
    ));
    assert_eq!(ctx.worker_kind, Some(WorkerKind::Local));

    let mut ctx = fresh();
    match step.after_models(&mut ctx, &answer(200, r#"{"data":[{"owned_by":"SGLang"}]}"#)) {
        Classification::Classified(Basis::Models(backend)) => assert_eq!(backend, "sglang"),
        other => panic!("{other:?}"),
    }
    assert_eq!(ctx.worker_kind, Some(WorkerKind::Local));
}

#[test]
fn an_unknown_worker_is_local_whatever_the_probes_say() {
    let step = ClassifyWorkerTypeStep;
    for health in [true, false] {
        for grpc in [true, false] {
            for models in [ModelsReply::NoAnswer, answer(200, "{}"), answer(500, "")] {
                let mut ctx = context_for("http://w:1", RuntimeType::Unspecified, true);
                let replies = ProbeReplies { health, grpc, models };
                assert!(step.execute(&mut ctx, &replies).is_ok());
                assert_eq!(ctx.worker_kind, Some(WorkerKind::Local));
                assert_eq!(ctx.config.url, "http://w:1");
            }
        }
    }
}

#[test]
fn a_known_provider_wins_over_the_probes_and_an_explicit_runtime_over_the_url() {
    let step = ClassifyWorkerTypeStep;
    let replies = ProbeReplies { health: true, grpc: true, models: ModelsReply::NoAnswer };
    let mut ctx = context_for("https://api.openai.com", RuntimeType::Unspecified, true);
    assert!(step.execute(&mut ctx, &replies).is_ok());
    assert_eq!(ctx.worker_kind, Some(WorkerKind::External));
    let mut ctx = context_for("https://api.openai.com", RuntimeType::Vllm, true);
    assert!(step.execute(&mut ctx, &replies).is_ok());
    assert_eq!(ctx.worker_kind, Some(WorkerKind::Local));
}

#[test]
fn a_named_provider_is_taken_on_without_a_lookup() {
    let step = ClassifyWorkerTypeStep;
    let mut ctx = context_for("http://w:1", RuntimeType::Unspecified, true);
    let state = step.begin_unspecified(&mut ctx, Some(Provider::Custom("acme".to_string())));
    match state {
        Classification::Classified(Basis::ProviderUrl(Provider::Custom(name))) => {
            assert_eq!(name, "acme")
        }
        other => panic!("{other:?}"),
    }
    assert_eq!(ctx.worker_kind, Some(WorkerKind::External));
}

#[test]
fn no_error_is_retryable() {
    let step = ClassifyWorkerTypeStep;
    assert!(!step.is_retryable(&providers_disabled("u")));
    assert!(!step.is_retryable(&WorkflowError::ContextValueNotFound("app_context".to_string())));
}

#[test]
fn local_backends_are_recognised_in_any_case() {
    for (owner, backend) in [
        ("sglang", "sglang"),
        ("VLLM", "vllm"),
        ("TrtLlm", "trtllm"),
        ("NVIDIA", "nvidia"),
    ] {
        let listing = Json::Object(vec![(
            "data".to_string(),
            Json::List(vec![
                Json::Object(vec![("owned_by".to_string(), Json::Text(owner.to_string()))]),
                Json::Null,
            ]),
        )]);
        assert_eq!(first_owned_by(&listing), Some(owner));
        assert_eq!(local_backend(&listing), Some(backend.to_string()));
    }
    assert!(is_local_owner("vllm"));
    assert!(!is_local_owner("VLLM"));
    assert!(!is_local_owner("openai"));
}

#[test]
fn a_reply_without_a_recognised_first_owner_names_no_backend() {
    assert_eq!(probe_models_owned_by(&ModelsReply::NoAnswer), None);
    assert_eq!(
        probe_models_owned_by(&ModelsReply::Answer { status: 200, body: None }),
        None
    );
    for body in [
        "",
        "not json",
        "[]",
        "null",
        r#"{"data":[]}"#,
        r#"{"data":{"0":{"owned_by":"vllm"}}}"#,
        r#"{"data":[{"owned_by":7}]}"#,
        r#"{"data":[{"id":"m"}]}"#,
        r#"{"data":["vllm"]}"#,
        r#"{"data":[{"owned_by":"openai"}]}"#,
        r#"{"data":[{"owned_by":"openai"},{"owned_by":"vllm"}]}"#,
        r#"{"models":[{"owned_by":"vllm"}]}"#,
        r#"{"data":[{"owned_by":"vllm"}]} trailing"#,
    ] {
        assert_eq!(probe_models_owned_by(&answer(200, body)), None, "{body}");
    }
    let good = r#"{"data":[{"owned_by":"vllm"}]}"#;
    assert_eq!(probe_models_owned_by(&answer(200, good)), Some("vllm".to_string()));
    assert_eq!(probe_models_owned_by(&answer(404, good)), Some("vllm".to_string()));
    assert_eq!(probe_models_owned_by(&answer(499, good)), Some("vllm".to_string()));
    assert_eq!(probe_models_owned_by(&answer(600, good)), Some("vllm".to_string()));
    assert_eq!(probe_models_owned_by(&answer(500, good)), None);
    assert_eq!(probe_models_owned_by(&answer(599, good)), None);
}

#[test]
fn server_errors_are_the_five_hundreds() {
    for status in 100..1000u16 {
        assert_eq!(is_server_error(status), (500..600).contains(&status));
    }
}

#[test]
fn a_document_keeps_its_shape() {
    let tree = parse_json(br#"{"a":[1,true,null,"x"],"b":{"c":"d"}}"#).unwrap();
    match tree.get("a") {
        Some(Json::List(items)) => {
            assert_eq!(items.len(), 4);
            assert!(matches!(&items[0], Json::Number));
            assert!(matches!(&items[1], Json::Bool(true)));
            assert!(matches!(&items[2], Json::Null));
            assert!(matches!(&items[3], Json::Text(s) if s == "x"));
        }
        other => panic!("{other:?}"),
    }
    let inner = tree.get("b").and_then(|b| b.get("c"));
    assert!(matches!(inner, Some(Json::Text(s)) if s == "d"));
    assert!(tree.get("z").is_none());
    assert!(Json::Number.get("a").is_none());
    let twice = parse_json(br#"{"a":1,"a":"last"}"#).unwrap();
    assert!(matches!(twice.get("a"), Some(Json::Text(s)) if s == "last"));
}

#[test]
fn the_models_request_carries_the_key_it_is_given() {
    let request = models_request("http://w:1", CLASSIFY_PROBE_TIMEOUT_SECS, Some("k"));
    assert_eq!(request.url, "http://w:1/v1/models");
    assert_eq!(request.timeout_secs, 2);
    assert_eq!(request.bearer, Some("k".to_string()));
    let request = models_request("http://w:1", 5, None);
    assert_eq!(request.timeout_secs, 5);
    assert_eq!(request.bearer, None);
}

#[test]
fn every_probe_goes_where_the_configuration_says() {
    let step = ClassifyWorkerTypeStep;
    let mut ctx = context_for("http://w:1", RuntimeType::Unspecified, false);
    ctx.config.api_key = Some("k".to_string());
    let probe = probe_of(&ctx);
    assert_eq!((probe.url.as_str(), probe.timeout_secs), ("http://w:1", 2));
    let first = step.begin(&mut ctx);
    let second = step.after_health(&mut ctx, false);
    let third = step.after_grpc(&mut ctx, false);
    match (first, second, third) {
        (
            Classification::ProbeHealth(health),
            Classification::ProbeGrpc(grpc),
            Classification::ProbeModels(models),
        ) => {
            for probe in [health, grpc, models] {
                assert_eq!((probe.url.as_str(), probe.timeout_secs), ("http://w:1", 2));
            }
        }
        other => panic!("{other:?}"),
    }
    let request = models_probe(&ctx, "http://w:1");
    assert_eq!(request.url, "http://w:1/v1/models");
    assert_eq!(request.timeout_secs, CLASSIFY_PROBE_TIMEOUT_SECS);
    assert_eq!(request.bearer, Some("k".to_string()));
    ctx.config.api_key = None;
    assert_eq!(models_probe(&ctx, "http://w:1").bearer, None);
}

#[test]
fn the_first_probe_that_succeeds_is_the_evidence() {
    let step = ClassifyWorkerTypeStep;
    let vllm = || answer(200, r#"{"data":[{"owned_by":"vllm"}]}"#);
    for (health, grpc, models, basis) in [
        (true, true, vllm(), "Health"),
        (true, false, vllm(), "Health"),
        (false, true, vllm(), "Grpc"),
        (false, false, vllm(), "Models(\"vllm\")"),
        (false, false, ModelsReply::NoAnswer, "Default"),
    ] {
        let mut ctx = context_for("http://w:1", RuntimeType::Unspecified, true);
        match step.settle(&mut ctx, &ProbeReplies { health, grpc, models }) {
            Classification::Classified(evidence) => assert_eq!(format!("{evidence:?}"), basis),
            other => panic!("{other:?}"),
        }
        assert_eq!(ctx.worker_kind, Some(WorkerKind::Local));
    }
}
