use rmlx_server::engine::error::EngineError;
use rmlx_server::engine::kv_quant::KvQuant;
use rmlx_server::engine::speculative::{
    classify_mtp_draft, decide_draft_kind, drafted_per_round, emit_step, finish_generation,
    mtp_reject_reason, plan_drafter, round_block, Declared, DecodedStep, DraftKind, DraftSampling,
    DraftSnapshot, DrafterLoader, ModelLoadConfig, MtpDraftFamily, SpeculativeGenerator,
    SpeculativeRun, DEFAULT_DRAFT_BLOCK_SIZE, MIN_DRAFT_BLOCK_SIZE,
};
use rmlx_server::engine::think::ThinkSplitter;
use rmlx_server::engine::types::{GenerationRequest, SamplingParams};

fn text_of(e: EngineError) -> String {
    e.message().unwrap_or("").to_owned()
}

// ── Kind ─────────────────────────────────────────────────────────────────────

#[test]
fn a_declaration_alone_selects_the_kind() {
    for kind in [DraftKind::Mtp, DraftKind::DFlash, DraftKind::Eagle3] {
        let declared = Declared::Sidecar(kind);
        assert_eq!(
            decide_draft_kind(None, declared, "arch", "type").ok(),
            Some(kind)
        );
        assert_eq!(
            decide_draft_kind(Some(kind), declared, "arch", "type").ok(),
            Some(kind),
            "a flag that agrees with the declaration changes nothing"
        );
    }
    assert_eq!(
        decide_draft_kind(None, Declared::FullModel, "arch", "type").ok(),
        Some(DraftKind::TwoModel)
    );
}

#[test]
fn the_flag_names_an_undeclared_snapshot() {
    assert_eq!(
        decide_draft_kind(Some(DraftKind::Mtp), Declared::Unknown, "", "").ok(),
        Some(DraftKind::Mtp)
    );
}

#[test]
fn an_undeclared_snapshot_without_a_flag_is_refused() {
    let msg = decide_draft_kind(None, Declared::Unknown, "FooForCausalLM", "foo")
        .err()
        .map_or_else(String::new, text_of);
    assert!(
        msg.contains("FooForCausalLM") && msg.contains("\"foo\""),
        "{msg}"
    );
    assert!(msg.contains("--draft-kind"), "names the way out: {msg}");
}

#[test]
fn a_flag_that_contradicts_the_declaration_is_refused() {
    let msg = decide_draft_kind(
        Some(DraftKind::TwoModel),
        Declared::Sidecar(DraftKind::Mtp),
        "Gemma4AssistantForCausalLM",
        "gemma4_assistant",
    )
    .err()
    .map_or_else(String::new, text_of);
    assert!(
        msg.contains("--draft-kind two_model"),
        "names the flag: {msg}"
    );
    assert!(
        msg.contains("a mtp drafter"),
        "names the declaration: {msg}"
    );
    assert!(
        msg.contains("Gemma4AssistantForCausalLM"),
        "names the snapshot's own words: {msg}"
    );
}

#[test]
fn the_flag_outranks_the_registry_inference() {
    let declared = Declared::FullModel;
    assert_eq!(
        decide_draft_kind(
            Some(DraftKind::Mtp),
            declared,
            "Gemma4ForConditionalGeneration",
            "gemma4"
        )
        .ok(),
        Some(DraftKind::Mtp)
    );
}

// ── Round block ──────────────────────────────────────────────────────────────

#[test]
fn one_flag_value_is_one_round_block() {
    assert_eq!(round_block(None).ok(), Some(DEFAULT_DRAFT_BLOCK_SIZE));
    for block in [MIN_DRAFT_BLOCK_SIZE, 5, 16] {
        assert_eq!(round_block(Some(block)).ok(), Some(block));
        assert_eq!(
            drafted_per_round(block) + 1,
            block,
            "the two-model loop records k + 1, which must be the block the flag named"
        );
    }
    for block in [0, MIN_DRAFT_BLOCK_SIZE - 1] {
        let msg = round_block(Some(block))
            .err()
            .map_or_else(String::new, text_of);
        assert!(
            msg.contains(&format!("block size {block}"))
                && msg.contains(&format!("at least {MIN_DRAFT_BLOCK_SIZE}")),
            "{msg}"
        );
    }
}

// ── Family ───────────────────────────────────────────────────────────────────

#[test]
fn qwen35_mtp_sidecar_routes_to_mtp_drafter() {
    assert_eq!(
        classify_mtp_draft("qwen3_5_mtp", "qwen3_5_mtp"),
        MtpDraftFamily::Qwen35Mtp
    );
    assert_eq!(
        classify_mtp_draft("", "qwen3_5_mtp"),
        MtpDraftFamily::Qwen35Mtp
    );
}

#[test]
fn qwen35_mtp_substring_match() {
    assert_eq!(
        classify_mtp_draft("qwen3_5_mtp_head_v2", ""),
        MtpDraftFamily::Qwen35Mtp,
        "arch substring containing qwen3_5_mtp should route to Qwen35Mtp"
    );
    assert_eq!(
        classify_mtp_draft("", "qwen3_5_mtp_variant"),
        MtpDraftFamily::Qwen35Mtp,
        "model_type substring containing qwen3_5_mtp should route to Qwen35Mtp"
    );
}

#[test]
fn empty_config_falls_through_to_qwen35_mtp() {
    assert_eq!(
        classify_mtp_draft("", ""),
        MtpDraftFamily::Qwen35Mtp,
        "blank arch+model_type must fall through to Qwen35Mtp, not Unsupported"
    );
}

#[test]
fn gemma4_assistant_routes_to_assistant_drafter() {
    assert_eq!(
        classify_mtp_draft("Gemma4Assistant", "gemma4_assistant"),
        MtpDraftFamily::Gemma4Assistant
    );
    assert_eq!(
        classify_mtp_draft("Gemma4AssistantForCausalLM", ""),
        MtpDraftFamily::Gemma4Assistant
    );
}

#[test]
fn plain_gemma4_draft_is_unsupported_not_qwen_fallthrough() {
    assert_eq!(
        classify_mtp_draft("Gemma4ForConditionalGeneration", ""),
        MtpDraftFamily::Unsupported
    );
}

#[test]
fn unrelated_family_is_unsupported() {
    assert_eq!(
        classify_mtp_draft("Qwen3ForCausalLM", ""),
        MtpDraftFamily::Unsupported
    );
}

#[test]
fn plain_gemma4_reject_reason_points_at_assistant_snapshot() {
    let reason = mtp_reject_reason("Gemma4ForConditionalGeneration", "");
    assert!(
        reason.contains("Gemma4"),
        "reason names the family: {reason}"
    );
    assert!(
        reason.contains("assistant"),
        "reason points at the assistant snapshot: {reason}"
    );
    assert!(
        !reason.contains("num_experts"),
        "reason must not leak the Qwen3.5 loader error: {reason}"
    );
}

#[test]
fn non_gemma_reject_reason_is_generic_and_clean() {
    let reason = mtp_reject_reason("Qwen3ForCausalLM", "qwen3");
    assert!(
        reason.contains("Qwen3ForCausalLM"),
        "names the arch: {reason}"
    );
    assert!(
        !reason.contains("num_experts"),
        "reason must not leak the Qwen3.5 loader error: {reason}"
    );
}

#[test]
fn plan_chooses_the_loader() {
    let p = plan_drafter(Some(DraftKind::Mtp), Declared::Unknown, "", "", None).unwrap();
    assert_eq!(p.loader, DrafterLoader::MtpSidecar);
    assert_eq!(p.block_size, 5);
    let p = plan_drafter(
        None,
        Declared::Sidecar(DraftKind::Mtp),
        "Gemma4Assistant",
        "",
        Some(3),
    )
    .unwrap();
    assert_eq!(p.loader, DrafterLoader::MtpAssistant);
    assert_eq!(p.loader.kind(), DraftKind::Mtp);
    let e = plan_drafter(
        Some(DraftKind::Mtp),
        Declared::FullModel,
        "Gemma4ForConditionalGeneration",
        "gemma4",
        None,
    )
    .unwrap_err();
    assert!(matches!(e, EngineError::SpeculativePairing { .. }));
    let e = plan_drafter(None, Declared::FullModel, "a", "b", Some(1)).unwrap_err();
    assert!(matches!(e, EngineError::Other(_)));
}

// ── Requests ─────────────────────────────────────────────────────────────────

fn request(model: &str, prompt: Vec<u32>) -> GenerationRequest {
    GenerationRequest {
        model_id: model.to_owned(),
        prompt_tokens: prompt,
        max_tokens: 100,
        sampling: SamplingParams::default(),
        stop: vec![],
        stream: false,
        system: None,
        session_id: None,
        effective_prompt_cache_slots: None,
        tools: None,
        tool_choice: None,
        response_format: None,
        has_constraint: false,
        thinking_budget: None,
        thinking_end_token_id: None,
        enable_thinking: None,
        prompt_think_open: false,
        emit_tool_markers: false,
        thinking_start_token: None,
        thinking_end_token: None,
        kv_quant_override: None,
        max_ctx_override: None,
        images: vec![],
        audio_b64: vec![],
        image_max_tokens: None,
    }
}

fn generator() -> SpeculativeGenerator {
    SpeculativeGenerator::from_snapshots_with_id(
        Some("verifier"),
        None,
        &ModelLoadConfig {
            kv_quant: None,
            max_ctx: Some(4096),
            prompt_cache_slots: 4,
            image_max_tokens: None,
        },
        KvQuant::K8V8,
        &DraftSnapshot {
            declared: Declared::FullModel,
            arch: "Qwen3ForCausalLM",
            model_type: "qwen3",
        },
        None,
        None,
    )
    .unwrap()
}

#[test]
fn generator_takes_its_name_from_the_directory() {
    let g = generator();
    assert_eq!(g.model_id(), "verifier");
    assert_eq!(g.draft_kind(), DraftKind::TwoModel);
    assert_eq!(g.plan().block_size, DEFAULT_DRAFT_BLOCK_SIZE);
}

#[test]
fn requests_are_checked_before_they_run() {
    let g = generator();
    assert!(g.check_request(&request("verifier", vec![1])).is_ok());
    assert_eq!(
        text_of(g.check_request(&request("other", vec![1])).unwrap_err()),
        "model id mismatch: generator serves 'verifier', got 'other'"
    );
    assert_eq!(
        text_of(g.check_request(&request("verifier", vec![])).unwrap_err()),
        "empty prompt"
    );
}

#[test]
fn request_settings_override_launch_settings() {
    let g = generator();
    let p = g
        .plan_request(&request("verifier", vec![1]), None)
        .unwrap();
    assert_eq!(p.kv_quant, Some(KvQuant::K8V8));
    assert_eq!(p.max_ctx, Some(4096));
    assert_eq!(p.prompt_cache_slots, 4);
    assert_eq!(p.n_tokens, 100);

    let mut req = request("verifier", vec![1]);
    req.kv_quant_override = Some(KvQuant::Planar);
    req.max_ctx_override = Some(128);
    req.effective_prompt_cache_slots = Some(9);
    assert_eq!(g.codec_for(&request("verifier", vec![1])), Some(KvQuant::K8V8));
    assert_eq!(g.codec_for(&req), Some(KvQuant::Planar));
    let p = g.plan_request(&req, None).unwrap();
    assert_eq!(p.kv_quant, Some(KvQuant::Planar));
    assert_eq!(p.max_ctx, Some(128));
    assert_eq!(p.prompt_cache_slots, 9);
}

#[test]
fn refused_codec_comes_before_refused_grammar() {
    let g = generator();
    let mut req = request("verifier", vec![1]);
    req.has_constraint = true;
    let e = g
        .plan_request(&req, Some(EngineError::Quant("no".to_owned())))
        .unwrap_err();
    assert!(matches!(e, EngineError::Quant(_)));
    let e = g.plan_request(&req, None).unwrap_err();
    assert!(text_of(e).starts_with("speculative_decode_with_response_format_unsupported"));
}

// ── Tokens ───────────────────────────────────────────────────────────────────

fn step(id: u32, decoded: &str, surface: Option<&str>) -> DecodedStep {
    DecodedStep {
        token_id: id,
        decoded: decoded.to_owned(),
        surface: surface.map(str::to_owned),
        logprobs: None,
    }
}

#[test]
fn suppressed_tool_markers_are_put_back_when_wanted() {
    let mut none: Option<ThinkSplitter> = None;
    let (t, forced) = emit_step(&mut none, step(1, "", Some("<|tool_call>")), true, None);
    assert_eq!(t.piece, "<|tool_call>");
    assert!(!t.is_thinking);
    assert_eq!(forced, None);
    let (t, _) = emit_step(&mut none, step(1, "", Some("<|tool_call>")), false, None);
    assert_eq!(t.piece, "");
    let (t, _) = emit_step(&mut none, step(1, "", Some("<turn|>")), true, None);
    assert_eq!(t.piece, "");
    let (t, _) = emit_step(&mut none, step(1, "x", Some("<|tool_call>")), true, None);
    assert_eq!(t.piece, "x");
}

#[test]
fn exceeded_budget_forces_the_end_token_once() {
    let mut sm = Some(ThinkSplitter::new_for_request(true, Some(1), None, None));
    let (t, forced) = emit_step(&mut sm, step(1, "a", None), false, Some(99));
    assert!(t.is_thinking);
    assert_eq!(forced, None);
    let (_, forced) = emit_step(&mut sm, step(2, "b", None), false, Some(99));
    assert_eq!(forced, Some(99));
    let (_, forced) = emit_step(&mut sm, step(3, "c", None), false, Some(99));
    assert_eq!(forced, None);
    let (t, _) = emit_step(&mut sm, step(4, "</think>", None), false, Some(99));
    assert!(!t.is_thinking);
    assert_eq!(t.piece, "");
}

#[test]
fn generation_ends_with_a_done_token() {
    let ts = finish_generation(&vec![5, 6], &vec![6], "tail".to_owned()).unwrap();
    assert_eq!(ts.len(), 2);
    assert_eq!(ts[0].piece, "tail");
    assert!(!ts[0].done);
    assert!(ts[1].done);
    assert_eq!(ts[1].token_id, 6);
    assert_eq!(ts[1].finish_reason.as_deref(), Some("stop"));
    let ts = finish_generation(&vec![5], &vec![6], String::new()).unwrap();
    assert_eq!(ts.len(), 1);
    assert_eq!(ts[0].finish_reason.as_deref(), Some("length"));
    assert_eq!(
        text_of(finish_generation(&vec![], &vec![6], String::new()).unwrap_err()),
        "speculative generation produced zero tokens"
    );
}

#[test]
fn a_loaded_generator_may_still_be_refused() {
    let g = generator();
    assert_eq!(g.load_codec(), Some(KvQuant::K8V8));
    assert_eq!(g.max_ctx(), Some(4096));
    let failed = |text: &str| Some(EngineError::Other(text.to_owned()));
    assert_eq!(g.accept_loaded(None, None).unwrap().model_id(), "verifier");
    let r = generator().accept_loaded(None, failed("codec"));
    assert_eq!(text_of(r.err().unwrap()), "codec");
    let r = generator().accept_loaded(failed("context"), failed("codec"));
    assert_eq!(text_of(r.err().unwrap()), "context");
}

#[test]
fn the_round_size_goes_by_the_drafter() {
    assert_eq!(generator().round_size(), DEFAULT_DRAFT_BLOCK_SIZE - 1);
    let sidecar = SpeculativeGenerator::from_snapshots_with_id(
        None,
        Some("given"),
        &ModelLoadConfig {
            kv_quant: Some(KvQuant::Planar),
            max_ctx: None,
            prompt_cache_slots: 0,
            image_max_tokens: None,
        },
        KvQuant::K8V8,
        &DraftSnapshot {
            declared: Declared::Sidecar(DraftKind::Eagle3),
            arch: "a",
            model_type: "b",
        },
        None,
        Some(3),
    )
    .unwrap();
    assert_eq!(sidecar.model_id(), "given");
    assert_eq!(sidecar.round_size(), 3);
}

#[test]
fn a_run_goes_from_its_first_step_to_its_last_token() {
    let mut req = request("verifier", vec![1]);
    req.prompt_think_open = true;
    req.thinking_budget = Some(0);
    req.thinking_end_token_id = Some(9);
    let mut run = SpeculativeRun::start(true, &req);
    let (t, forced) = run.on_step(step(1, "a", None));
    assert!(t.unwrap().is_thinking);
    assert_eq!(forced, Some(9));
    let (t, forced) = run.on_step(step(9, "</think>b", None));
    let t = t.unwrap();
    assert_eq!(t.piece, "b");
    assert!(!t.is_thinking);
    assert_eq!(forced, None);
    let end = run.finish(Ok(vec![1, 9]), &vec![7], String::new());
    assert_eq!(
        end.unwrap().unwrap()[0].finish_reason.as_deref(),
        Some("length")
    );
    let failed = run.finish(
        Err(EngineError::Other("gpu".to_owned())),
        &vec![7],
        String::new(),
    );
    assert_eq!(text_of(failed.unwrap().unwrap_err()), "gpu");

    run.cancel();
    let (t, forced) = run.on_step(step(1, "x", None));
    assert!(t.is_none());
    assert_eq!(forced, None);
    assert!(run.finish(Ok(vec![1]), &vec![7], String::new()).is_none());
}

#[test]
fn a_model_that_does_not_think_has_no_splitter() {
    let mut run = SpeculativeRun::start(false, &request("verifier", vec![1]));
    let (t, _) = run.on_step(step(1, "<think>", None));
    let t = t.unwrap();
    assert_eq!(t.piece, "<think>");
    assert!(!t.is_thinking);
}

#[test]
fn draft_loops_take_over_the_sampling() {
    let mut req = request("verifier", vec![1]);
    req.sampling.top_k = 4;
    req.sampling.seed = Some(3);
    let s = DraftSampling::from_request(&req.sampling);
    assert_eq!(s.top_k, 4);
    assert_eq!(s.seed, Some(3));
    assert_eq!(s.temperature, req.sampling.temperature);
}
