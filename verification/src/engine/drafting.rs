//! What a request gets on the speculative-decoding path.
//!
//! The laws here follow the settings of a request, the choice of a drafter and the
//! steps of a run through [`SpeculativeGenerator`] and [`SpeculativeRun`].

use vstd::prelude::*;

use crate::engine::error::EngineError;
use crate::engine::kv_quant::KvQuant;
use crate::engine::speculative::{
    classify_mtp_draft, decide_draft_kind, finish_generation, mtp_reject_reason, plan_drafter, Declared, DecodedStep, DraftKind,
    DraftSampling, DraftSnapshot, DrafterLoader, DrafterPlan, ModelLoadConfig, MtpDraftFamily,
    SpeculativeGenerator, SpeculativePlan, SpeculativeRun,
};
use crate::engine::types::{GenerationRequest, GenerationToken, SamplingParams};
use crate::text::{contains, debug_text, opt_view, views};

verus! {

// ── Settings ─────────────────────────────────────────────────────────────────

/// The draft loops sample with the request's own parameters, each under its name.
pub proof fn law_drafts_sample_as_requested(s: SamplingParams, r: DraftSampling)
    requires
        call_ensures(DraftSampling::from_request, (&s,), r),
    ensures
        r.temperature == s.temperature,
        r.top_p == s.top_p,
        r.top_k == s.top_k,
        r.min_p == s.min_p,
        r.seed == s.seed,
{
}

/// A request runs with its own codec, context window and cache slots, where it sets
/// them, else with those of the launch, and for its own number of tokens. It is
/// refused when its codec is, or when it comes with a grammar, and only then.
pub proof fn law_request_overrides_the_launch(
    g: SpeculativeGenerator,
    req: GenerationRequest,
    codec_error: Option<EngineError>,
    codec: Option<KvQuant>,
    r: Result<SpeculativePlan, EngineError>,
)
    requires
        call_ensures(SpeculativeGenerator::codec_for, (&g, &req), codec),
        call_ensures(SpeculativeGenerator::plan_request, (&g, &req, codec_error), r),
    ensures
        req.kv_quant_override is Some ==> codec == req.kv_quant_override,
        req.kv_quant_override is None ==> codec == g@.kv_quant,
        r is Err == ((codec is Some && codec_error is Some) || req.has_constraint),
        codec is Some && codec_error is Some ==> (r matches Err(e) && e@ == codec_error->0@),
        r matches Ok(p) ==> {
            &&& p.kv_quant == codec
            &&& req.max_ctx_override is Some ==> p.max_ctx == req.max_ctx_override
            &&& req.max_ctx_override is None ==> p.max_ctx == g@.max_ctx
            &&& req.effective_prompt_cache_slots matches Some(n) ==> p.prompt_cache_slots == n
            &&& req.effective_prompt_cache_slots is None ==> p.prompt_cache_slots
                == g@.prompt_cache_slots
            &&& p.n_tokens == req.max_tokens
        },
{
}

/// A generator keeps what it was loaded with: its name is the one given, else that of
/// the directory, else `unknown`; its codec is the one set at launch, else that of the
/// architecture.
pub proof fn law_generator_keeps_its_load(
    dir_name: Option<&str>,
    model_id: Option<&str>,
    cfg: ModelLoadConfig,
    arch_default: KvQuant,
    draft: DraftSnapshot<'_>,
    kind: Option<DraftKind>,
    block: Option<usize>,
    g: SpeculativeGenerator,
    name: &str,
    codec: Option<KvQuant>,
    max_ctx: Option<i32>,
)
    requires
        call_ensures(
            SpeculativeGenerator::from_snapshots_with_id,
            (dir_name, model_id, &cfg, arch_default, &draft, kind, block),
            Ok(g),
        ),
        call_ensures(SpeculativeGenerator::model_id, (&g,), name),
        call_ensures(SpeculativeGenerator::load_codec, (&g,), codec),
        call_ensures(SpeculativeGenerator::max_ctx, (&g,), max_ctx),
    ensures
        model_id matches Some(id) ==> name@ == id@,
        model_id is None && dir_name is Some ==> name@ == dir_name->0@,
        model_id is None && dir_name is None ==> name@ == "unknown"@,
        cfg.kv_quant is Some ==> codec == cfg.kv_quant,
        cfg.kv_quant is None ==> codec == Some(arch_default),
        max_ctx == cfg.max_ctx,
        g@.kv_quant == codec,
        g@.max_ctx == max_ctx,
        g@.prompt_cache_slots == cfg.prompt_cache_slots,
{
}

/// A loaded generator starts unless its context window or its codec is refused; the
/// refusal of the context window comes first.
pub proof fn law_loaded_generator_is_accepted(
    g: SpeculativeGenerator,
    context_error: Option<EngineError>,
    codec_error: Option<EngineError>,
    r: Result<SpeculativeGenerator, EngineError>,
)
    requires
        call_ensures(SpeculativeGenerator::accept_loaded, (g, context_error, codec_error), r),
    ensures
        context_error matches Some(e) ==> (r matches Err(f) && f@ == e@),
        context_error is None && codec_error is Some && g@.kv_quant is Some ==> (r matches Err(f)
            && f@ == codec_error->0@),
        context_error is None && codec_error is None ==> (r matches Ok(h) && h@ == g@),
{
}

/// A request is turned away when it names another model or has no prompt, and only
/// then.
pub proof fn law_foreign_and_empty_requests_are_refused(
    g: SpeculativeGenerator,
    req: GenerationRequest,
    r: Result<(), EngineError>,
)
    requires
        call_ensures(SpeculativeGenerator::check_request, (&g, &req), r),
    ensures
        r is Ok == (req.model_id@ == g@.model_id && req.prompt_tokens@.len() > 0),
{
}

// ── The drafter ──────────────────────────────────────────────────────────────

/// The kind of a drafter is that of the flag, else that of the snapshot. A flag that
/// contradicts the marker of a sidecar is refused, as is a snapshot that says nothing
/// without a flag; nothing else is.
pub proof fn law_flag_and_snapshot_decide_the_kind(
    flag: Option<DraftKind>,
    declared: Declared,
    arch: &str,
    model_type: &str,
    r: Result<DraftKind, EngineError>,
)
    requires
        call_ensures(decide_draft_kind, (flag, declared, arch, model_type), r),
    ensures
        r is Err == match flag {
            Some(f) => declared matches Declared::Sidecar(k) && k != f,
            None => declared is Unknown,
        },
        r matches Err(e) ==> e is SpeculativePairing,
        r matches Ok(k) ==> match flag {
            Some(f) => k == f,
            None => match declared {
                Declared::Sidecar(d) => k == d,
                _ => k == DraftKind::TwoModel,
            },
        },
{
}

/// A multi-token-prediction drafter is loaded by its family: that of the Gemma4
/// assistants, by their model type or architecture, before that of the Qwen3.5
/// sidecars, to which a snapshot that declares nothing belongs.
pub proof fn law_family_goes_by_the_declaration(
    arch: &str,
    model_type: &str,
    r: MtpDraftFamily,
)
    requires
        call_ensures(classify_mtp_draft, (arch, model_type), r),
    ensures
        r == MtpDraftFamily::Gemma4Assistant <==> model_type@ == "gemma4_assistant"@ || contains(
            arch@,
            "Gemma4Assistant"@,
        ),
        r != MtpDraftFamily::Gemma4Assistant && (contains(arch@, "qwen3_5_mtp"@) || contains(
            model_type@,
            "qwen3_5_mtp"@,
        )) ==> r == MtpDraftFamily::Qwen35Mtp,
        arch@.len() == 0 && model_type@.len() == 0 && r != MtpDraftFamily::Gemma4Assistant ==> r
            == MtpDraftFamily::Qwen35Mtp,
        r == MtpDraftFamily::Qwen35Mtp ==> contains(arch@, "qwen3_5_mtp"@) || contains(
            model_type@,
            "qwen3_5_mtp"@,
        ) || (arch@.len() == 0 && model_type@.len() == 0),
{
}

/// A drafter is loaded by the loader of its kind and runs with the block that the flag
/// sets, or with five; a block without room for a draft token is refused.
pub proof fn law_plan_follows_kind_and_block(
    flag: Option<DraftKind>,
    declared: Declared,
    arch: &str,
    model_type: &str,
    block: Option<usize>,
    kind: Result<DraftKind, EngineError>,
    family: MtpDraftFamily,
    r: Result<DrafterPlan, EngineError>,
)
    requires
        call_ensures(decide_draft_kind, (flag, declared, arch, model_type), kind),
        call_ensures(classify_mtp_draft, (arch, model_type), family),
        call_ensures(plan_drafter, (flag, declared, arch, model_type, block), r),
    ensures
        r is Err == (kind is Err || (block matches Some(n) && n < 2) || (kind matches Ok(
            DraftKind::Mtp,
        ) && family == MtpDraftFamily::Unsupported)),
        r matches Ok(p) ==> {
            &&& block matches Some(n) ==> p.block_size == n
            &&& block is None ==> p.block_size == 5
            &&& p.loader == match kind->Ok_0 {
                DraftKind::Eagle3 => DrafterLoader::Eagle3,
                DraftKind::DFlash => DrafterLoader::DFlash,
                DraftKind::TwoModel => DrafterLoader::TwoModel,
                DraftKind::Mtp => if family == MtpDraftFamily::Gemma4Assistant {
                    DrafterLoader::MtpAssistant
                } else {
                    DrafterLoader::MtpSidecar
                },
            }
        },
{
}

/// A round drafts one token less than its block where two models run, and its whole
/// block otherwise.
pub proof fn law_round_size_goes_by_the_drafter(g: SpeculativeGenerator, plan: DrafterPlan, n: usize)
    requires
        call_ensures(SpeculativeGenerator::plan, (&g,), plan),
        call_ensures(SpeculativeGenerator::round_size, (&g,), n),
    ensures
        plan.loader == DrafterLoader::TwoModel ==> n == plan.block_size - 1,
        plan.loader != DrafterLoader::TwoModel ==> n == plan.block_size,
        n >= 1,
{
}

// ── Tokens ───────────────────────────────────────────────────────────────────

/// A step of a run without a thinking channel is sent as it was decoded, under its own
/// id and with its own log-probabilities, as answer; a tool marker that decoding
/// suppressed is put back where markers are wanted. Nothing is forced.
pub proof fn law_step_is_sent_as_decoded(
    run: &mut SpeculativeRun,
    step: DecodedStep,
    r: (Option<GenerationToken>, Option<u32>),
)
    requires
        call_ensures(SpeculativeRun::on_step, (run, step), r),
        !old(run)@.cancelled,
        old(run)@.splitter is None,
    ensures
        r.1 is None,
        r.0 matches Some(t) && {
            &&& t.token_id == step.token_id
            &&& opt_view(t.logprobs) == opt_view(step.logprobs)
            &&& !t.is_thinking
            &&& !t.done
            &&& t.finish_reason is None
            &&& step.decoded@.len() > 0 || !old(run)@.emit_tool_markers ==> t.piece@
                == step.decoded@
            &&& step.decoded@.len() == 0 && old(run)@.emit_tool_markers ==> match step.surface {
                Some(s) => t.piece@ == if s@ == "<|tool_call>"@ || s@ == "<tool_call|>"@ || s@
                    == "<|\"|>"@ {
                    s@
                } else {
                    Seq::empty()
                },
                None => t.piece@.len() == 0,
            }
        },
{
    assert(step.decoded@.len() == 0 ==> step.decoded@ =~= Seq::empty());
}

/// A step of a run with a thinking channel is sent without delimiters, on the channel
/// that the splitter is on behind it. When the step exceeds the thinking budget, the
/// token that closes the block is forced.
pub proof fn law_step_is_split(
    run: &mut SpeculativeRun,
    step: DecodedStep,
    r: (Option<GenerationToken>, Option<u32>),
)
    requires
        call_ensures(SpeculativeRun::on_step, (run, step), r),
        !old(run)@.cancelled,
        old(run)@.splitter is Some,
        step.decoded@.len() > 0,
    ensures
        ({
            let before = old(run)@.splitter->0;
            let after = before.after(step.decoded@);
            &&& r.0 matches Some(t) && {
                &&& t.token_id == step.token_id
                &&& opt_view(t.logprobs) == opt_view(step.logprobs)
                &&& t.piece@ == before.visible(step.decoded@)
                &&& t.is_thinking == after.open
                &&& !t.done
                &&& t.finish_reason is None
            }
            &&& r.1 == if after.force_close {
                old(run)@.thinking_end_token_id
            } else {
                None
            }
        }),
{
}

/// A run takes its thinking settings and markers from the request.
pub proof fn law_run_starts_as_requested(supports_thinking: bool, req: GenerationRequest, run: SpeculativeRun)
    requires
        call_ensures(SpeculativeRun::start, (supports_thinking, &req), run),
    ensures
        !run@.cancelled,
        run@.emit_tool_markers == req.emit_tool_markers,
        run@.thinking_end_token_id == req.thinking_end_token_id,
        run@.splitter is Some == supports_thinking,
        run@.splitter matches Some(s) ==> {
            &&& s.open == req.prompt_think_open
            &&& s.budget == req.thinking_budget
            &&& s.count == 0
            &&& req.thinking_start_token matches Some(d) ==> d@.len() > 0 ==> s.start == d@
            &&& req.thinking_end_token matches Some(d) ==> d@.len() > 0 ==> s.end == d@
            &&& req.thinking_start_token is None ==> s.start == "<think>"@
            &&& req.thinking_end_token is None ==> s.end == "</think>"@
            &&& !s.exceeded
            &&& !s.force_close
        },
{
}

/// The tokens that end a run are what the detokenizer still held back, if anything, and
/// then one empty token that says why: `stop` if the last step's id ends a generation,
/// else `length`. Both bear the last id. A run without steps is a failure, a failed
/// loop is reported as it failed, and a cancelled run ends without a word.
pub proof fn law_run_ends_with_its_reason(
    run: SpeculativeRun,
    result: Result<Vec<u32>, EngineError>,
    eos_ids: Vec<u32>,
    tail: String,
    r: Option<Result<Vec<GenerationToken>, EngineError>>,
)
    requires
        call_ensures(SpeculativeRun::finish, (&run, result, &eos_ids, tail), r),
    ensures
        run@.cancelled ==> r is None,
        !run@.cancelled && result is Err ==> (r matches Some(Err(e)) && e@ == result->Err_0@),
        !run@.cancelled && (result matches Ok(ids) && ids@.len() == 0) ==> (r matches Some(Err(e))
            && e is Other),
        !run@.cancelled && (result matches Ok(ids) && ids@.len() > 0) ==> (r matches Some(Ok(ts))
            && {
            let last = result->Ok_0@.last();
            let n = ts@.len();
            &&& n == if tail@.len() > 0 {
                2int
            } else {
                1int
            }
            &&& ts@[n - 1].done
            &&& ts@[n - 1].token_id == last
            &&& ts@[n - 1].piece@.len() == 0
            &&& ts@[n - 1].finish_reason matches Some(f) && f@ == if eos_ids@.contains(last) {
                "stop"@
            } else {
                "length"@
            }
            &&& tail@.len() > 0 ==> {
                &&& ts@[0].piece@ == tail@
                &&& ts@[0].token_id == last
                &&& !ts@[0].done
                &&& !ts@[0].is_thinking
                &&& ts@[0].finish_reason is None
            }
        }),
{
    match r {
        Some(Ok(ts)) => {
            assert(views(ts@).len() == ts@.len());
            assert(views(ts@)[0] == ts@[0]@);
            assert(views(ts@)[ts@.len() - 1] == ts@[ts@.len() - 1]@);
        },
        _ => {},
    }
}

// ── Failures ─────────────────────────────────────────────────────────────────

/// What a contradicted flag, an unknown snapshot and an unsupported family are told.
pub proof fn law_pairing_failures_are_told(
    flag: DraftKind,
    declared: DraftKind,
    arch: &str,
    model_type: &str,
    contradicted: Result<DraftKind, EngineError>,
    unknown: Result<DraftKind, EngineError>,
    flag_name: &'static str,
    declared_name: &'static str,
    reason: String,
)
    requires
        flag != declared,
        call_ensures(
            decide_draft_kind,
            (Some(flag), Declared::Sidecar(declared), arch, model_type),
            contradicted,
        ),
        call_ensures(
            decide_draft_kind,
            (None::<DraftKind>, Declared::Unknown, arch, model_type),
            unknown,
        ),
        call_ensures(DraftKind::name, (flag,), flag_name),
        call_ensures(DraftKind::name, (declared,), declared_name),
        call_ensures(mtp_reject_reason, (arch, model_type), reason),
    ensures
        contradicted matches Err(EngineError::SpeculativePairing { reason: t }) && t@
            == "--draft-kind "@ + flag_name@
            + " contradicts the draft snapshot, which declares itself a "@ + declared_name@
            + " drafter "@ + ("(architectures[0] "@ + debug_text(arch@) + ", model_type "@
            + debug_text(model_type@) + ")"@) + "; drop the flag or point --draft-model at a "@
            + flag_name@ + " snapshot"@,
        unknown matches Err(EngineError::SpeculativePairing { reason: t }) && t@
            == "the draft snapshot's config.json identifies no drafter "@ + (
        "(architectures[0] "@ + debug_text(arch@) + ", model_type "@ + debug_text(model_type@)
            + ")"@)
            + " — it is neither a sidecar head (mtp / dflash / eagle3) nor a registered generative architecture; pass --draft-kind to name it"@,
        reason@ == if contains(arch@, "Gemma4"@) || contains(model_type@, "gemma4"@) {
            "draft model architecture '"@ + arch@
                + "' is a plain Gemma4 model, which has no MTP sidecar head and cannot be used with --draft-kind mtp; a Gemma4 MTP draft requires the dedicated Gemma4 assistant snapshot (e.g. *-it-assistant-bf16), not a plain Gemma4ForConditionalGeneration checkpoint"@
        } else {
            "draft model architecture '"@ + arch@ + "' (model_type '"@ + model_type@
                + "') is not a supported --draft-kind mtp family; MTP supports the Qwen3.5-MoE sidecar head (qwen3_5_mtp) and the Gemma4 assistant drafter (gemma4_assistant)"@
        },
{
}

/// What a request is told that names another model, has no prompt, or comes with a
/// grammar, and what a run without tokens is.
pub proof fn law_request_failures_are_told(
    g: SpeculativeGenerator,
    req: GenerationRequest,
    checked: Result<(), EngineError>,
    planned: Result<SpeculativePlan, EngineError>,
    ids: Vec<u32>,
    eos_ids: Vec<u32>,
    tail: String,
    ended: Result<Vec<GenerationToken>, EngineError>,
)
    requires
        call_ensures(SpeculativeGenerator::check_request, (&g, &req), checked),
        call_ensures(SpeculativeGenerator::plan_request, (&g, &req, None::<EngineError>), planned),
        call_ensures(finish_generation, (&ids, &eos_ids, tail), ended),
    ensures
        req.model_id@ != g@.model_id ==> (checked matches Err(EngineError::Other(t)) && t@
            == "model id mismatch: generator serves '"@ + g@.model_id + "', got '"@ + req.model_id@
            + "'"@),
        req.model_id@ == g@.model_id && req.prompt_tokens@.len() == 0 ==> (
        checked matches Err(EngineError::Other(t)) && t@ == "empty prompt"@),
        req.has_constraint ==> (planned matches Err(EngineError::Other(t)) && t@
            == "speculative_decode_with_response_format_unsupported: `response_format` (json_object / json_schema) is not supported on the speculative-decoding path. Retry the request without speculative draft, or drop response_format."@),
        ids@.len() == 0 ==> (ended matches Err(EngineError::Other(t)) && t@
            == "speculative generation produced zero tokens"@),
{
}

} // verus!
