//! Speculative decoding: choice of the drafter, and what one round emits.

use vstd::prelude::*;

use crate::engine::error::{EngineError, EngineErrorV};
use crate::engine::helpers::{is_reconstructible_tool_marker, is_tool_marker};
use crate::engine::kv_quant::{kv_quant_for_request, resolve_kv_quant_for_load, KvQuant};
use crate::engine::think::{delimiter, fresh, SplitterV, ThinkSplitter};
use crate::engine::types::{
    GenerationRequest, GenerationToken, RequestV, SamplingParams, SamplingV, TokenV,
};
use crate::float32::F32;
use crate::openai::response::ChatLogprobContent;
use crate::text::{
    contains, copy_opt_text, debug_text, decimal, join2, join3, join5, opt_view, text_contains,
    text_debug, text_eq, u64_text, views,
};

verus! {

// ── The drafter's family ─────────────────────────────────────────────────────

/// The loaders of multi-token-prediction drafts.
#[derive(Debug, Clone, Copy, PartialEq, Eq, Structural)]
pub enum MtpDraftFamily {
    Gemma4Assistant,
    Qwen35Mtp,
    /// No loader is made for this family.
    Unsupported,
}

/// The loader of a draft, by the architecture and model type that it declares. A
/// draft that declares neither counts as a Qwen3.5 sidecar.
pub open spec fn mtp_family(arch: Seq<char>, model_type: Seq<char>) -> MtpDraftFamily {
    if model_type == "gemma4_assistant"@ || contains(arch, "Gemma4Assistant"@) {
        MtpDraftFamily::Gemma4Assistant
    } else if contains(arch, "qwen3_5_mtp"@) || contains(model_type, "qwen3_5_mtp"@) {
        MtpDraftFamily::Qwen35Mtp
    } else if arch.len() == 0 && model_type.len() == 0 {
        MtpDraftFamily::Qwen35Mtp
    } else {
        MtpDraftFamily::Unsupported
    }
}

/// The loader of a draft, by the architecture and model type that it declares.
pub fn classify_mtp_draft(arch: &str, model_type: &str) -> (r: MtpDraftFamily)
    ensures
        r == mtp_family(arch@, model_type@),
{
    if text_eq(model_type, "gemma4_assistant") || text_contains(arch, "Gemma4Assistant") {
        MtpDraftFamily::Gemma4Assistant
    } else if text_contains(arch, "qwen3_5_mtp") || text_contains(model_type, "qwen3_5_mtp") {
        MtpDraftFamily::Qwen35Mtp
    } else if arch.is_empty() && model_type.is_empty() {
        MtpDraftFamily::Qwen35Mtp
    } else {
        MtpDraftFamily::Unsupported
    }
}

/// Why a draft of an unsupported family is refused. A plain Gemma 4 model gets a
/// hint at the snapshot that would do.
pub open spec fn reject_reason(arch: Seq<char>, model_type: Seq<char>) -> Seq<char> {
    if contains(arch, "Gemma4"@) || contains(model_type, "gemma4"@) {
        "draft model architecture '"@ + arch
            + "' is a plain Gemma4 model, which has no MTP sidecar head and cannot be used with --draft-kind mtp; a Gemma4 MTP draft requires the dedicated Gemma4 assistant snapshot (e.g. *-it-assistant-bf16), not a plain Gemma4ForConditionalGeneration checkpoint"@
    } else {
        "draft model architecture '"@ + arch + "' (model_type '"@ + model_type
            + "') is not a supported --draft-kind mtp family; MTP supports the Qwen3.5-MoE sidecar head (qwen3_5_mtp) and the Gemma4 assistant drafter (gemma4_assistant)"@
    }
}

/// Why a draft of an unsupported family is refused.
pub fn mtp_reject_reason(arch: &str, model_type: &str) -> (r: String)
    ensures
        r@ == reject_reason(arch@, model_type@),
{
    if text_contains(arch, "Gemma4") || text_contains(model_type, "gemma4") {
        join3(
            "draft model architecture '",
            arch,
            "' is a plain Gemma4 model, which has no MTP sidecar head and cannot be used with --draft-kind mtp; a Gemma4 MTP draft requires the dedicated Gemma4 assistant snapshot (e.g. *-it-assistant-bf16), not a plain Gemma4ForConditionalGeneration checkpoint",
        )
    } else {
        join5(
            "draft model architecture '",
            arch,
            "' (model_type '",
            model_type,
            "') is not a supported --draft-kind mtp family; MTP supports the Qwen3.5-MoE sidecar head (qwen3_5_mtp) and the Gemma4 assistant drafter (gemma4_assistant)",
        )
    }
}

// ── The round block ──────────────────────────────────────────────────────────

/// The round block unless configured otherwise: the verifier's own token and four
/// drafted ones.
pub const DEFAULT_DRAFT_BLOCK_SIZE: usize = 5;

/// The smallest round block with room for a draft token.
pub const MIN_DRAFT_BLOCK_SIZE: usize = 2;

/// The failure of a round block without room for a draft token.
pub open spec fn block_too_small(block: nat) -> EngineErrorV {
    EngineErrorV::Other(
        "draft block size "@ + decimal(block)
            + " leaves no room for a draft token; it must be at least "@ + decimal(
            MIN_DRAFT_BLOCK_SIZE as nat,
        ),
    )
}

/// The tokens that the verifier scores per round, its own included.
pub fn round_block(flag: Option<usize>) -> (r: Result<usize, EngineError>)
    ensures
        match (flag, r) {
            (None, Ok(block)) => block == DEFAULT_DRAFT_BLOCK_SIZE,
            (Some(n), Ok(block)) => n >= MIN_DRAFT_BLOCK_SIZE && block == n,
            (Some(n), Err(e)) => n < MIN_DRAFT_BLOCK_SIZE && e@ == block_too_small(n as nat),
            (None, Err(_)) => false,
        },
{
    match flag {
        None => Ok(DEFAULT_DRAFT_BLOCK_SIZE),
        Some(block) => if block >= MIN_DRAFT_BLOCK_SIZE {
            Ok(block)
        } else {
            let head = join3(
                "draft block size ",
                u64_text(block as u64).as_str(),
                " leaves no room for a draft token; it must be at least ",
            );
            Err(
                EngineError::Other(
                    join2(head.as_str(), u64_text(MIN_DRAFT_BLOCK_SIZE as u64).as_str()),
                ),
            )
        },
    }
}

/// How many tokens a full draft model drafts per round of `block` tokens.
pub fn drafted_per_round(block: usize) -> (r: usize)
    requires
        block >= 1,
    ensures
        r == block - 1,
{
    block - 1
}

// ── The drafter's kind ───────────────────────────────────────────────────────

/// The kinds of drafters.
#[derive(Debug, Clone, Copy, PartialEq, Eq, Structural)]
pub enum DraftKind {
    Mtp,
    DFlash,
    Eagle3,
    TwoModel,
}

/// What a draft snapshot says it is.
#[derive(Debug, Clone, Copy, PartialEq, Eq, Structural)]
pub enum Declared {
    /// A sidecar head of this kind, by a marker of its own.
    Sidecar(DraftKind),
    /// A full model, by the registry of architectures.
    FullModel,
    Unknown,
}

impl DraftKind {
    /// The name of the kind on the command line.
    pub open spec fn spec_name(self) -> Seq<char> {
        match self {
            DraftKind::Mtp => "mtp"@,
            DraftKind::DFlash => "dflash"@,
            DraftKind::Eagle3 => "eagle3"@,
            DraftKind::TwoModel => "two_model"@,
        }
    }

    /// The name of the kind on the command line.
    pub fn name(self) -> (r: &'static str)
        ensures
            r@ == self.spec_name(),
    {
        match self {
            DraftKind::Mtp => "mtp",
            DraftKind::DFlash => "dflash",
            DraftKind::Eagle3 => "eagle3",
            DraftKind::TwoModel => "two_model",
        }
    }
}

impl Declared {
    /// The kind that a declaration selects.
    pub open spec fn spec_kind(self) -> Option<DraftKind> {
        match self {
            Declared::Sidecar(k) => Some(k),
            Declared::FullModel => Some(DraftKind::TwoModel),
            Declared::Unknown => None,
        }
    }

    /// The kind that a declaration selects.
    pub fn kind(self) -> (r: Option<DraftKind>)
        ensures
            r == self.spec_kind(),
    {
        match self {
            Declared::Sidecar(k) => Some(k),
            Declared::FullModel => Some(DraftKind::TwoModel),
            Declared::Unknown => None,
        }
    }
}

/// What a snapshot declares, as part of a message.
pub open spec fn declared_fields(arch: Seq<char>, model_type: Seq<char>) -> Seq<char> {
    "(architectures[0] "@ + debug_text(arch) + ", model_type "@ + debug_text(model_type) + ")"@
}

/// The failure of a flag that contradicts a sidecar marker.
pub open spec fn contradiction(
    flag: DraftKind,
    declared: DraftKind,
    arch: Seq<char>,
    model_type: Seq<char>,
) -> EngineErrorV {
    EngineErrorV::SpeculativePairing(
        "--draft-kind "@ + flag.spec_name()
            + " contradicts the draft snapshot, which declares itself a "@ + declared.spec_name()
            + " drafter "@ + declared_fields(arch, model_type)
            + "; drop the flag or point --draft-model at a "@ + flag.spec_name() + " snapshot"@,
    )
}

/// The failure of a snapshot that nothing names.
pub open spec fn unidentified(arch: Seq<char>, model_type: Seq<char>) -> EngineErrorV {
    EngineErrorV::SpeculativePairing(
        "the draft snapshot's config.json identifies no drafter "@ + declared_fields(
            arch,
            model_type,
        )
            + " — it is neither a sidecar head (mtp / dflash / eagle3) nor a registered generative architecture; pass --draft-kind to name it"@,
    )
}

/// The kind that a flag and a declaration select. A flag that contradicts a
/// sidecar's own marker is refused; over the registry's inference it wins.
pub open spec fn draft_kind_of(
    flag: Option<DraftKind>,
    declared: Declared,
    arch: Seq<char>,
    model_type: Seq<char>,
) -> Result<DraftKind, EngineErrorV> {
    match (flag, declared) {
        (Some(f), Declared::Sidecar(d)) if f != d => Err(contradiction(f, d, arch, model_type)),
        (Some(f), _) => Ok(f),
        (None, _) => match declared.spec_kind() {
            Some(k) => Ok(k),
            None => Err(unidentified(arch, model_type)),
        },
    }
}

/// The value of a result that may be an engine failure.
pub open spec fn result_view<T>(r: Result<T, EngineError>) -> Result<T, EngineErrorV> {
    match r {
        Ok(v) => Ok(v),
        Err(e) => Err(e@),
    }
}

fn fields_text(arch: &str, model_type: &str) -> (r: String)
    ensures
        r@ == declared_fields(arch@, model_type@),
{
    join5(
        "(architectures[0] ",
        text_debug(arch).as_str(),
        ", model_type ",
        text_debug(model_type).as_str(),
        ")",
    )
}

/// The kind of drafter that a run is under, from the optional flag and from what
/// the draft snapshot declares.
pub fn decide_draft_kind(
    flag: Option<DraftKind>,
    declared: Declared,
    arch: &str,
    model_type: &str,
) -> (r: Result<DraftKind, EngineError>)
    ensures
        result_view(r) == draft_kind_of(flag, declared, arch@, model_type@),
{
    match flag {
        Some(f) => {
            match declared {
                Declared::Sidecar(d) => if f != d {
                    let head = join5(
                        "--draft-kind ",
                        f.name(),
                        " contradicts the draft snapshot, which declares itself a ",
                        d.name(),
                        " drafter ",
                    );
                    return Err(
                        EngineError::SpeculativePairing {
                            reason: join5(
                                head.as_str(),
                                fields_text(arch, model_type).as_str(),
                                "; drop the flag or point --draft-model at a ",
                                f.name(),
                                " snapshot",
                            ),
                        },
                    );
                },
                _ => {},
            }
            Ok(f)
        },
        None => match declared.kind() {
            Some(k) => Ok(k),
            None => Err(
                EngineError::SpeculativePairing {
                    reason: join3(
                        "the draft snapshot's config.json identifies no drafter ",
                        fields_text(arch, model_type).as_str(),
                        " — it is neither a sidecar head (mtp / dflash / eagle3) nor a registered generative architecture; pass --draft-kind to name it",
                    ),
                },
            ),
        },
    }
}

/// The loaders of drafters.
#[derive(Debug, Clone, Copy, PartialEq, Eq, Structural)]
pub enum DrafterLoader {
    Eagle3,
    DFlash,
    MtpAssistant,
    MtpSidecar,
    /// A full draft model beside the verifier.
    TwoModel,
}

impl DrafterLoader {
    /// The kind of drafter that the loader makes.
    pub open spec fn spec_kind(self) -> DraftKind {
        match self {
            DrafterLoader::Eagle3 => DraftKind::Eagle3,
            DrafterLoader::DFlash => DraftKind::DFlash,
            DrafterLoader::MtpAssistant => DraftKind::Mtp,
            DrafterLoader::MtpSidecar => DraftKind::Mtp,
            DrafterLoader::TwoModel => DraftKind::TwoModel,
        }
    }

    /// The kind of drafter that the loader makes.
    pub fn kind(self) -> (r: DraftKind)
        ensures
            r == self.spec_kind(),
    {
        match self {
            DrafterLoader::Eagle3 => DraftKind::Eagle3,
            DrafterLoader::DFlash => DraftKind::DFlash,
            DrafterLoader::MtpAssistant | DrafterLoader::MtpSidecar => DraftKind::Mtp,
            DrafterLoader::TwoModel => DraftKind::TwoModel,
        }
    }
}

/// How a drafter is to be loaded and run.
#[derive(Debug, Clone, Copy, PartialEq, Eq, Structural)]
pub struct DrafterPlan {
    pub loader: DrafterLoader,
    /// Tokens that the verifier scores per round, its own included.
    pub block_size: usize,
}

/// The loader of a drafter of a decided kind. Only the multi-token-prediction
/// kind depends on the family.
pub open spec fn loader_of(kind: DraftKind, arch: Seq<char>, model_type: Seq<char>) -> Result<
    DrafterLoader,
    EngineErrorV,
> {
    match kind {
        DraftKind::Eagle3 => Ok(DrafterLoader::Eagle3),
        DraftKind::DFlash => Ok(DrafterLoader::DFlash),
        DraftKind::TwoModel => Ok(DrafterLoader::TwoModel),
        DraftKind::Mtp => match mtp_family(arch, model_type) {
            MtpDraftFamily::Gemma4Assistant => Ok(DrafterLoader::MtpAssistant),
            MtpDraftFamily::Qwen35Mtp => Ok(DrafterLoader::MtpSidecar),
            MtpDraftFamily::Unsupported => Err(
                EngineErrorV::SpeculativePairing(reject_reason(arch, model_type)),
            ),
        },
    }
}

/// How the drafter of a run is to be loaded and run: its kind is decided first,
/// then its round block, then its loader.
pub open spec fn drafter_plan(
    flag: Option<DraftKind>,
    declared: Declared,
    arch: Seq<char>,
    model_type: Seq<char>,
    block_flag: Option<usize>,
) -> Result<DrafterPlan, EngineErrorV> {
    let block = match block_flag {
        Some(n) => n,
        None => DEFAULT_DRAFT_BLOCK_SIZE,
    };
    match draft_kind_of(flag, declared, arch, model_type) {
        Err(e) => Err(e),
        Ok(kind) => if block < MIN_DRAFT_BLOCK_SIZE {
            Err(block_too_small(block as nat))
        } else {
            match loader_of(kind, arch, model_type) {
                Err(e) => Err(e),
                Ok(loader) => Ok(DrafterPlan { loader, block_size: block }),
            }
        },
    }
}

/// How the drafter of a run is to be loaded and run.
pub fn plan_drafter(
    flag: Option<DraftKind>,
    declared: Declared,
    arch: &str,
    model_type: &str,
    block_flag: Option<usize>,
) -> (r: Result<DrafterPlan, EngineError>)
    ensures
        result_view(r) == drafter_plan(flag, declared, arch@, model_type@, block_flag),
{
    let kind = match decide_draft_kind(flag, declared, arch, model_type) {
        Ok(k) => k,
        Err(e) => {
            return Err(e);
        },
    };
    let block_size: usize = match round_block(block_flag) {
        Ok(b) => b,
        Err(e) => {
            return Err(e);
        },
    };
    let loader = match kind {
        DraftKind::Eagle3 => DrafterLoader::Eagle3,
        DraftKind::DFlash => DrafterLoader::DFlash,
        DraftKind::TwoModel => DrafterLoader::TwoModel,
        DraftKind::Mtp => match classify_mtp_draft(arch, model_type) {
            MtpDraftFamily::Gemma4Assistant => DrafterLoader::MtpAssistant,
            MtpDraftFamily::Qwen35Mtp => DrafterLoader::MtpSidecar,
            MtpDraftFamily::Unsupported => {
                return Err(
                    EngineError::SpeculativePairing { reason: mtp_reject_reason(arch, model_type) },
                );
            },
        },
    };
    Ok(DrafterPlan { loader, block_size })
}

/// The id of a model: the one given, else the name of its directory, else
/// `unknown`.
pub open spec fn model_id_of(given: Option<&str>, dir_name: Option<&str>) -> Seq<char> {
    match (given, dir_name) {
        (Some(id), _) => id@,
        (None, Some(name)) => name@,
        (None, None) => "unknown"@,
    }
}

/// The id of a model.
pub fn resolve_model_id(given: Option<&str>, dir_name: Option<&str>) -> (r: String)
    ensures
        r@ == model_id_of(given, dir_name),
{
    match given {
        Some(id) => id.to_owned(),
        None => match dir_name {
            Some(name) => name.to_owned(),
            None => "unknown".to_owned(),
        },
    }
}

// ── The generator ────────────────────────────────────────────────────────────

/// How models are loaded, as configured at startup.
#[derive(Debug, Clone, Copy, PartialEq, Eq, Structural)]
pub struct ModelLoadConfig {
    /// `None` for the architecture's default codec.
    pub kv_quant: Option<KvQuant>,
    pub max_ctx: Option<i32>,
    pub prompt_cache_slots: usize,
    pub image_max_tokens: Option<usize>,
}

/// What a draft snapshot says of itself.
#[derive(Debug)]
pub struct DraftSnapshot<'a> {
    pub declared: Declared,
    pub arch: &'a str,
    pub model_type: &'a str,
}

/// A generator of a verifier and a drafter: the choices made when it was loaded.
#[derive(Debug)]
pub struct SpeculativeGenerator {
    model_id: String,
    kv_quant: Option<KvQuant>,
    max_ctx: Option<i32>,
    prompt_cache_slots: usize,
    plan: DrafterPlan,
}

pub struct GeneratorV {
    pub model_id: Seq<char>,
    pub kv_quant: Option<KvQuant>,
    pub max_ctx: Option<i32>,
    pub prompt_cache_slots: usize,
    pub plan: DrafterPlan,
}

impl View for SpeculativeGenerator {
    type V = GeneratorV;

    closed spec fn view(&self) -> GeneratorV {
        GeneratorV {
            model_id: self.model_id@,
            kv_quant: self.kv_quant,
            max_ctx: self.max_ctx,
            prompt_cache_slots: self.prompt_cache_slots,
            plan: self.plan,
        }
    }
}

/// How a request is run.
#[derive(Debug, Clone, Copy, PartialEq, Eq, Structural)]
pub struct SpeculativePlan {
    pub kv_quant: Option<KvQuant>,
    pub max_ctx: Option<i32>,
    pub prompt_cache_slots: usize,
    pub n_tokens: u32,
}

/// The refusal of a request with a grammar.
pub open spec fn grammar_refused() -> EngineErrorV {
    EngineErrorV::Other(
        "speculative_decode_with_response_format_unsupported: `response_format` (json_object / json_schema) is not supported on the speculative-decoding path. Retry the request without speculative draft, or drop response_format."@,
    )
}

/// The codec that a request runs on.
pub open spec fn request_codec(req: Option<KvQuant>, launch: Option<KvQuant>) -> Option<KvQuant> {
    if req is Some {
        req
    } else {
        launch
    }
}

impl SpeculativeGenerator {
    /// The round block has room for a draft token.
    #[verifier::type_invariant]
    spec fn has_room(self) -> bool {
        self.plan.block_size >= MIN_DRAFT_BLOCK_SIZE
    }

    /// Decides how a verifier and a draft snapshot are loaded. `dir_name` is the
    /// name of the verifier's directory, `arch_default` the codec of its
    /// architecture.
    pub fn from_snapshots_with_id(
        dir_name: Option<&str>,
        model_id_override: Option<&str>,
        load_cfg: &ModelLoadConfig,
        arch_default: KvQuant,
        draft: &DraftSnapshot<'_>,
        draft_kind: Option<DraftKind>,
        draft_block_size: Option<usize>,
    ) -> (r: Result<Self, EngineError>)
        ensures
            match drafter_plan(
                draft_kind,
                draft.declared,
                draft.arch@,
                draft.model_type@,
                draft_block_size,
            ) {
                Err(e) => r matches Err(f) && f@ == e,
                Ok(plan) => r matches Ok(g) && g@ == (GeneratorV {
                    model_id: model_id_of(model_id_override, dir_name),
                    kv_quant: Some(
                        match load_cfg.kv_quant {
                            Some(q) => q,
                            None => arch_default,
                        },
                    ),
                    max_ctx: load_cfg.max_ctx,
                    prompt_cache_slots: load_cfg.prompt_cache_slots,
                    plan,
                }),
            },
    {
        let model_id = resolve_model_id(model_id_override, dir_name);
        let (kv_quant, _) = resolve_kv_quant_for_load(load_cfg.kv_quant, arch_default);
        match plan_drafter(
            draft_kind,
            draft.declared,
            draft.arch,
            draft.model_type,
            draft_block_size,
        ) {
            Err(e) => Err(e),
            Ok(plan) => Ok(
                SpeculativeGenerator {
                    model_id,
                    kv_quant,
                    max_ctx: load_cfg.max_ctx,
                    prompt_cache_slots: load_cfg.prompt_cache_slots,
                    plan,
                },
            ),
        }
    }

    /// The codec that the verifier is asked about once it is loaded.
    pub fn load_codec(&self) -> (r: Option<KvQuant>)
        ensures
            r == self@.kv_quant,
    {
        self.kv_quant
    }

    /// The context window that was set at launch.
    pub fn max_ctx(&self) -> (r: Option<i32>)
        ensures
            r == self@.max_ctx,
    {
        self.max_ctx
    }

    /// Whether this generator can start once its models are loaded. A context window
    /// that the verifier cannot have (`context_error`, the answer about
    /// [`SpeculativeGenerator::max_ctx`]) and a codec that it refuses (`codec_error`,
    /// the answer about [`SpeculativeGenerator::load_codec`]) are failures, in this
    /// order.
    pub fn accept_loaded(
        self,
        context_error: Option<EngineError>,
        codec_error: Option<EngineError>,
    ) -> (r: Result<Self, EngineError>)
        ensures
            match context_error {
                Some(e) => r matches Err(f) && f@ == e@,
                None => match codec_error {
                    Some(e) if self@.kv_quant is Some => r matches Err(f) && f@ == e@,
                    _ => r matches Ok(g) && g@ == self@,
                },
            },
    {
        match context_error {
            Some(e) => Err(e),
            None => match codec_error {
                Some(e) => if self.kv_quant.is_some() {
                    Err(e)
                } else {
                    Ok(self)
                },
                None => Ok(self),
            },
        }
    }

    /// The model that this generator serves.
    pub fn model_id(&self) -> (r: &str)
        ensures
            r@ == self@.model_id,
    {
        self.model_id.as_str()
    }

    /// The kind of drafter that this generator runs.
    pub fn draft_kind(&self) -> (r: DraftKind)
        ensures
            r == self@.plan.loader.spec_kind(),
    {
        self.plan.loader.kind()
    }

    /// How the drafter is loaded and run.
    pub fn plan(&self) -> (r: DrafterPlan)
        ensures
            r == self@.plan,
    {
        self.plan
    }

    /// The size that the round loop is given: the tokens drafted per round where
    /// two models run, else the round block.
    pub fn round_size(&self) -> (r: usize)
        ensures
            r >= 1,
            r == if self@.plan.loader == DrafterLoader::TwoModel {
                self@.plan.block_size - 1
            } else {
                self@.plan.block_size as int
            },
    {
        proof {
            use_type_invariant(self);
        }
        match self.plan.loader {
            DrafterLoader::TwoModel => drafted_per_round(self.plan.block_size),
            _ => self.plan.block_size,
        }
    }

    /// Whether a request can be served at all: it names this model, and its
    /// prompt is not empty.
    pub fn check_request(&self, req: &GenerationRequest) -> (r: Result<(), EngineError>)
        ensures
            result_view(r) == if req@.model_id != self@.model_id {
                Err(
                    EngineErrorV::Other(
                        "model id mismatch: generator serves '"@ + self@.model_id + "', got '"@
                            + req@.model_id + "'"@,
                    ),
                )
            } else if req@.prompt_tokens.len() == 0 {
                Err(EngineErrorV::Other("empty prompt"@))
            } else {
                Ok(())
            },
    {
        if !text_eq(req.model_id.as_str(), self.model_id.as_str()) {
            return Err(
                EngineError::Other(
                    join5(
                        "model id mismatch: generator serves '",
                        self.model_id.as_str(),
                        "', got '",
                        req.model_id.as_str(),
                        "'",
                    ),
                ),
            );
        }
        if req.prompt_tokens.len() == 0 {
            return Err(EngineError::Other("empty prompt".to_owned()));
        }
        Ok(())
    }

    /// The codec that a request runs on: its own, else that of the launch. It is
    /// the one about which the model is asked before the request is planned.
    pub fn codec_for(&self, req: &GenerationRequest) -> (r: Option<KvQuant>)
        ensures
            r == request_codec(req@.kv_quant_override, self@.kv_quant),
    {
        kv_quant_for_request(req.kv_quant_override, self.kv_quant)
    }

    /// How a request is run. What the request sets overrides what was set at
    /// launch; a codec that the model refuses (`codec_error`, the answer about
    /// [`SpeculativeGenerator::codec_for`]) and a grammar are failures, in this
    /// order.
    pub fn plan_request(&self, req: &GenerationRequest, codec_error: Option<EngineError>) -> (r:
        Result<SpeculativePlan, EngineError>)
        ensures
            ({
                let codec = request_codec(req@.kv_quant_override, self@.kv_quant);
                match codec_error {
                    Some(e) if codec is Some => r matches Err(f) && f@ == e@,
                    _ => if req@.has_constraint {
                        r matches Err(f) && f@ == grammar_refused()
                    } else {
                        r matches Ok(p) && p == (SpeculativePlan {
                            kv_quant: codec,
                            max_ctx: if req@.max_ctx_override is Some {
                                req@.max_ctx_override
                            } else {
                                self@.max_ctx
                            },
                            prompt_cache_slots: match req@.effective_prompt_cache_slots {
                                Some(n) => n,
                                None => self@.prompt_cache_slots,
                            },
                            n_tokens: req@.max_tokens,
                        })
                    },
                }
            }),
    {
        let kv_quant = kv_quant_for_request(req.kv_quant_override, self.kv_quant);
        if kv_quant.is_some() {
            match codec_error {
                Some(e) => {
                    return Err(e);
                },
                None => {},
            }
        }
        if req.has_constraint {
            return Err(
                EngineError::Other(
                    "speculative_decode_with_response_format_unsupported: `response_format` (json_object / json_schema) is not supported on the speculative-decoding path. Retry the request without speculative draft, or drop response_format.".to_owned(),
                ),
            );
        }
        Ok(
            SpeculativePlan {
                kv_quant,
                max_ctx: match req.max_ctx_override {
                    Some(n) => Some(n),
                    None => self.max_ctx,
                },
                prompt_cache_slots: match req.effective_prompt_cache_slots {
                    Some(n) => n,
                    None => self.prompt_cache_slots,
                },
                n_tokens: req.max_tokens,
            },
        )
    }
}

// ── Tokens ───────────────────────────────────────────────────────────────────

/// The text of a token. A tool marker that decoding suppressed is put back where
/// markers are wanted.
pub open spec fn step_text(
    decoded: Seq<char>,
    emit_tool_markers: bool,
    surface: Option<Seq<char>>,
) -> Seq<char> {
    match surface {
        Some(s) if emit_tool_markers && decoded.len() == 0 && is_tool_marker(s) => s,
        _ => decoded,
    }
}

/// One decoded step of a round.
#[derive(Debug)]
pub struct DecodedStep {
    pub token_id: u32,
    /// What the detokenizer made of it; may be empty.
    pub decoded: String,
    /// The token's entry in the vocabulary.
    pub surface: Option<String>,
    pub logprobs: Option<ChatLogprobContent>,
}

/// The view of an optional splitter.
pub open spec fn splitter_view(s: Option<ThinkSplitter>) -> Option<SplitterV> {
    match s {
        Some(t) => Some(t@),
        None => None,
    }
}

/// The token that a step emits, by the splitter's state before it.
pub open spec fn step_token(
    splitter: Option<SplitterV>,
    step: DecodedStep,
    emit_tool_markers: bool,
) -> TokenV {
    let text = step_text(step.decoded@, emit_tool_markers, opt_view(step.surface));
    TokenV {
        token_id: step.token_id,
        piece: match splitter {
            Some(s) => s.visible(text),
            None => text,
        },
        done: false,
        finish_reason: None,
        is_thinking: match splitter {
            Some(s) => s.after(text).open,
            None => false,
        },
        logprobs: opt_view(step.logprobs),
    }
}

/// The token that a step emits, and the token that is forced next: the end of the
/// thinking block, once the thinking budget is exceeded.
pub fn emit_step(
    splitter: &mut Option<ThinkSplitter>,
    step: DecodedStep,
    emit_tool_markers: bool,
    thinking_end_token_id: Option<u32>,
) -> (r: (GenerationToken, Option<u32>))
    requires
        splitter_view(*old(splitter)) matches Some(s) ==> s.valid(),
    ensures
        r.0@ == step_token(splitter_view(*old(splitter)), step, emit_tool_markers),
        match (splitter_view(*old(splitter)), splitter_view(*final(splitter))) {
            (Some(before), Some(after)) => {
                let s = before.after(
                    step_text(step.decoded@, emit_tool_markers, opt_view(step.surface)),
                );
                &&& after == s.taken()
                &&& after.valid()
                &&& r.1 == if s.force_close {
                    thinking_end_token_id
                } else {
                    None
                }
            },
            (None, None) => r.1 is None,
            _ => false,
        },
{
    let text: String = if emit_tool_markers && step.decoded.as_str().is_empty() {
        match step.surface {
            Some(surface) => if is_reconstructible_tool_marker(surface.as_str()) {
                surface
            } else {
                step.decoded
            },
            None => step.decoded,
        }
    } else {
        step.decoded
    };
    match splitter.take() {
        Some(sm) => {
            let mut sm = sm;
            let (piece, is_thinking) = sm.step(text.as_str());
            let forced = if sm.take_force_close() {
                thinking_end_token_id
            } else {
                None
            };
            *splitter = Some(sm);
            (
                GenerationToken {
                    token_id: step.token_id,
                    piece,
                    done: false,
                    finish_reason: None,
                    is_thinking,
                    logprobs: step.logprobs,
                },
                forced,
            )
        },
        None => {
            *splitter = None;
            (
                GenerationToken {
                    token_id: step.token_id,
                    piece: text,
                    done: false,
                    finish_reason: None,
                    is_thinking: false,
                    logprobs: step.logprobs,
                },
                None,
            )
        },
    }
}

/// A token that carries only text.
pub open spec fn tail_token(last_id: u32, tail: Seq<char>) -> TokenV {
    TokenV {
        token_id: last_id,
        piece: tail,
        done: false,
        finish_reason: None,
        is_thinking: false,
        logprobs: None,
    }
}

/// The token that ends a generation: `stop` when the model ended it, else
/// `length`.
pub open spec fn done_token(last_id: u32, eos_ids: Seq<u32>) -> TokenV {
    TokenV {
        token_id: last_id,
        piece: Seq::empty(),
        done: true,
        finish_reason: Some(
            if eos_ids.contains(last_id) {
                "stop"@
            } else {
                "length"@
            },
        ),
        is_thinking: false,
        logprobs: None,
    }
}

/// The last tokens of a generation that ends with `last_id`: what the detokenizer
/// still held back, if anything, and the token that ends it.
pub open spec fn last_tokens(last_id: u32, eos_ids: Seq<u32>, tail: Seq<char>) -> Seq<TokenV> {
    if tail.len() > 0 {
        seq![tail_token(last_id, tail)].push(done_token(last_id, eos_ids))
    } else {
        seq![done_token(last_id, eos_ids)]
    }
}

fn contains_id(ids: &Vec<u32>, id: u32) -> (r: bool)
    ensures
        r == ids@.contains(id),
{
    let mut i: usize = 0;
    while i < ids.len()
        invariant
            i <= ids@.len(),
            forall|k: int| 0 <= k < i ==> ids@[k] != id,
        decreases ids@.len() - i,
    {
        if ids[i] == id {
            return true;
        }
        i += 1;
    }
    false
}

/// The tokens that end a generation whose steps had these ids: what the
/// detokenizer still held back, and the last token. A generation without steps is
/// a failure.
pub fn finish_generation(step_ids: &Vec<u32>, eos_ids: &Vec<u32>, tail: String) -> (r: Result<
    Vec<GenerationToken>,
    EngineError,
>)
    ensures
        match r {
            Err(e) => step_ids@.len() == 0 && e@ == EngineErrorV::Other(
                "speculative generation produced zero tokens"@,
            ),
            Ok(ts) => step_ids@.len() > 0 && views(ts@) == last_tokens(
                step_ids@.last(),
                eos_ids@,
                tail@,
            ),
        },
{
    let n: usize = step_ids.len();
    if n == 0 {
        return Err(
            EngineError::Other("speculative generation produced zero tokens".to_owned()),
        );
    }
    let last_id: u32 = step_ids[n - 1];
    let finish: &str = if contains_id(eos_ids, last_id) {
        "stop"
    } else {
        "length"
    };
    let mut out: Vec<GenerationToken> = Vec::new();
    let has_tail = !tail.as_str().is_empty();
    if has_tail {
        out.push(
            GenerationToken {
                token_id: last_id,
                piece: tail,
                done: false,
                finish_reason: None,
                is_thinking: false,
                logprobs: None,
            },
        );
    }
    out.push(
        GenerationToken {
            token_id: last_id,
            piece: String::new(),
            done: true,
            finish_reason: Some(finish.to_owned()),
            is_thinking: false,
            logprobs: None,
        },
    );
    proof {
        if has_tail {
            assert(views(out@) =~= seq![tail_token(last_id, tail@)].push(
                done_token(last_id, eos_ids@),
            ));
        } else {
            assert(views(out@) =~= seq![done_token(last_id, eos_ids@)]);
        }
    }
    Ok(out)
}

// ── A run ────────────────────────────────────────────────────────────────────

/// The sampling parameters of the draft loops; they report no alternatives.
pub open spec fn draft_sampling(s: SamplingV) -> DraftSampling {
    DraftSampling {
        temperature: s.temperature,
        top_p: s.top_p,
        top_k: s.top_k,
        min_p: s.min_p,
        seed: s.seed,
    }
}

/// The sampling parameters of the draft loops.
#[derive(Debug, Clone, Copy, PartialEq, Eq, Structural)]
pub struct DraftSampling {
    pub temperature: F32,
    pub top_p: F32,
    pub top_k: u32,
    pub min_p: F32,
    pub seed: Option<u64>,
}

impl DraftSampling {
    /// What a request's sampling parameters are to the draft loops.
    pub fn from_request(s: &SamplingParams) -> (r: DraftSampling)
        ensures
            r == draft_sampling(s@),
            r.temperature == s.temperature,
            r.top_p == s.top_p,
            r.top_k == s.top_k,
            r.min_p == s.min_p,
            r.seed == s.seed,
    {
        DraftSampling {
            temperature: s.temperature,
            top_p: s.top_p,
            top_k: s.top_k,
            min_p: s.min_p,
            seed: s.seed,
        }
    }
}

/// The splitter that a request begins with; only a model that thinks has one.
pub open spec fn request_splitter(supports_thinking: bool, req: RequestV) -> Option<SplitterV> {
    if supports_thinking {
        Some(
            fresh(
                req.prompt_think_open,
                req.thinking_budget,
                delimiter(req.thinking_start_token, "<think>"@),
                delimiter(req.thinking_end_token, "</think>"@),
            ),
        )
    } else {
        None
    }
}

/// The generation of one request, from its first step to its last token.
#[derive(Debug)]
pub struct SpeculativeRun {
    splitter: Option<ThinkSplitter>,
    emit_tool_markers: bool,
    thinking_end_token_id: Option<u32>,
    cancelled: bool,
}

pub struct RunV {
    pub splitter: Option<SplitterV>,
    pub emit_tool_markers: bool,
    pub thinking_end_token_id: Option<u32>,
    /// Whether nobody receives the tokens any more.
    pub cancelled: bool,
}

impl View for SpeculativeRun {
    type V = RunV;

    closed spec fn view(&self) -> RunV {
        RunV {
            splitter: splitter_view(self.splitter),
            emit_tool_markers: self.emit_tool_markers,
            thinking_end_token_id: self.thinking_end_token_id,
            cancelled: self.cancelled,
        }
    }
}

impl RunV {
    /// The splitter, if there is one, is valid.
    pub open spec fn valid(self) -> bool {
        self.splitter matches Some(s) ==> s.valid()
    }

    /// The run after a step. A cancelled run no longer changes.
    pub open spec fn after(self, step: DecodedStep) -> RunV {
        match self.splitter {
            Some(s) if !self.cancelled => RunV {
                splitter: Some(
                    s.after(
                        step_text(step.decoded@, self.emit_tool_markers, opt_view(step.surface)),
                    ).taken(),
                ),
                ..self
            },
            _ => self,
        }
    }

    /// The token that a step forces next, if it exceeds the thinking budget.
    pub open spec fn forced(self, step: DecodedStep) -> Option<u32> {
        match self.splitter {
            Some(s) if s.after(
                step_text(step.decoded@, self.emit_tool_markers, opt_view(step.surface)),
            ).force_close => self.thinking_end_token_id,
            _ => None,
        }
    }
}

impl SpeculativeRun {
    /// The run of a request on a model that may think.
    pub fn start(supports_thinking: bool, req: &GenerationRequest) -> (r: Self)
        ensures
            r@ == (RunV {
                splitter: request_splitter(supports_thinking, req@),
                emit_tool_markers: req@.emit_tool_markers,
                thinking_end_token_id: req@.thinking_end_token_id,
                cancelled: false,
            }),
            r@.valid(),
    {
        let splitter = if supports_thinking {
            Some(
                ThinkSplitter::new_for_request(
                    req.prompt_think_open,
                    req.thinking_budget,
                    copy_opt_text(&req.thinking_start_token),
                    copy_opt_text(&req.thinking_end_token),
                ),
            )
        } else {
            None
        };
        SpeculativeRun {
            splitter,
            emit_tool_markers: req.emit_tool_markers,
            thinking_end_token_id: req.thinking_end_token_id,
            cancelled: false,
        }
    }

    /// The token that a step emits, and the token that it forces next. A
    /// cancelled run emits nothing.
    pub fn on_step(&mut self, step: DecodedStep) -> (r: (Option<GenerationToken>, Option<u32>))
        requires
            old(self)@.valid(),
        ensures
            final(self)@.valid(),
            final(self)@ == old(self)@.after(step),
            if old(self)@.cancelled {
                r.0 is None && r.1 is None
            } else {
                &&& r.0 matches Some(t) && t@ == step_token(
                    old(self)@.splitter,
                    step,
                    old(self)@.emit_tool_markers,
                )
                &&& r.1 == old(self)@.forced(step)
            },
    {
        if self.cancelled {
            return (None, None);
        }
        let (token, forced) = emit_step(
            &mut self.splitter,
            step,
            self.emit_tool_markers,
            self.thinking_end_token_id,
        );
        (Some(token), forced)
    }

    /// Takes note that nobody receives the tokens any more.
    pub fn cancel(&mut self)
        ensures
            final(self)@ == (RunV { cancelled: true, ..old(self)@ }),
    {
        self.cancelled = true;
    }

    /// What ends the run: nothing when it was cancelled, the failure of its loop,
    /// or its last tokens.
    pub fn finish(
        &self,
        result: Result<Vec<u32>, EngineError>,
        eos_ids: &Vec<u32>,
        tail: String,
    ) -> (r: Option<Result<Vec<GenerationToken>, EngineError>>)
        ensures
            if self@.cancelled {
                r is None
            } else {
                match result {
                    Err(e) => r matches Some(Err(f)) && f@ == e@,
                    Ok(ids) => if ids@.len() == 0 {
                        r matches Some(Err(f)) && f@ == EngineErrorV::Other(
                            "speculative generation produced zero tokens"@,
                        )
                    } else {
                        r matches Some(Ok(ts)) && views(ts@) == last_tokens(
                            ids@.last(),
                            eos_ids@,
                            tail@,
                        )
                    },
                }
            },
    {
        if self.cancelled {
            return None;
        }
        match result {
            Err(e) => Some(Err(e)),
            Ok(ids) => Some(finish_generation(&ids, eos_ids, tail)),
        }
    }
}

// ── Laws ─────────────────────────────────────────────────────────────────────

/// A declaration alone selects a kind, and a flag that agrees with it changes
/// nothing.
pub proof fn law_declaration_selects_kind(
    declared: Declared,
    arch: Seq<char>,
    model_type: Seq<char>,
)
    requires
        declared != Declared::Unknown,
    ensures
        draft_kind_of(None, declared, arch, model_type) == Ok::<DraftKind, EngineErrorV>(
            declared.spec_kind()->0,
        ),
        draft_kind_of(declared.spec_kind(), declared, arch, model_type) == Ok::<
            DraftKind,
            EngineErrorV,
        >(declared.spec_kind()->0),
{
}

/// A drafter is loaded as the kind that was decided, and its round block has room
/// for a draft token.
pub proof fn law_plan_respects_decision(
    flag: Option<DraftKind>,
    declared: Declared,
    arch: Seq<char>,
    model_type: Seq<char>,
    block_flag: Option<usize>,
)
    ensures
        drafter_plan(flag, declared, arch, model_type, block_flag) matches Ok(p) ==> {
            &&& draft_kind_of(flag, declared, arch, model_type) == Ok::<DraftKind, EngineErrorV>(
                p.loader.spec_kind(),
            )
            &&& p.block_size >= MIN_DRAFT_BLOCK_SIZE
        },
{
}

/// A cancelled run stays cancelled, whatever steps follow.
pub proof fn law_cancelled_run_stays(run: RunV, step: DecodedStep)
    requires
        run.cancelled,
    ensures
        run.after(step) == run,
{
}

/// A block of the flag is kept, five is the default, and less than two is refused; two
/// models draft all of it but one. A kind goes by its name.
pub proof fn law_blocks_and_names(
    flag: Option<usize>,
    r: Result<usize, EngineError>,
    block: usize,
    n: usize,
    kind: DraftKind,
    name: &'static str,
)
    requires
        call_ensures(round_block, (flag,), r),
        call_ensures(drafted_per_round, (block,), n),
        call_ensures(DraftKind::name, (kind,), name),
    ensures
        flag is None ==> (r matches Ok(b) && b == 5),
        flag matches Some(k) ==> (r is Err == (k < 2)) && (r matches Ok(b) ==> b == k),
        n == block - 1,
        name@ == match kind {
            DraftKind::Mtp => "mtp"@,
            DraftKind::DFlash => "dflash"@,
            DraftKind::Eagle3 => "eagle3"@,
            DraftKind::TwoModel => "two_model"@,
        },
{
}

/// A drafter is of the kind that its loader makes.
pub proof fn law_generator_is_of_its_kind(
    g: SpeculativeGenerator,
    plan: DrafterPlan,
    kind: DraftKind,
)
    requires
        call_ensures(SpeculativeGenerator::plan, (&g,), plan),
        call_ensures(SpeculativeGenerator::draft_kind, (&g,), kind),
    ensures
        kind == match plan.loader {
            DrafterLoader::Eagle3 => DraftKind::Eagle3,
            DrafterLoader::DFlash => DraftKind::DFlash,
            DrafterLoader::MtpAssistant => DraftKind::Mtp,
            DrafterLoader::MtpSidecar => DraftKind::Mtp,
            DrafterLoader::TwoModel => DraftKind::TwoModel,
        },
{
}

/// A run that was cancelled emits nothing more and forces nothing.
pub proof fn law_cancelled_run_is_silent(
    run: &mut SpeculativeRun,
    later: &mut SpeculativeRun,
    step: DecodedStep,
    r: (Option<GenerationToken>, Option<u32>),
)
    requires
        call_ensures(SpeculativeRun::cancel, (run,), ()),
        *old(later) == *final(run),
        call_ensures(SpeculativeRun::on_step, (later, step), r),
    ensures
        r.0 is None,
        r.1 is None,
        final(later)@.cancelled,
{
}

} // verus!
