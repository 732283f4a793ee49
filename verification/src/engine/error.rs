//! Errors that an engine reports.

use vstd::prelude::*;

verus! {

/// The phase in which memory ran out.
#[derive(Clone, Copy, Debug, PartialEq, Eq, Structural)]
pub enum OomPhase {
    LoadWeights,
    LoadKvCache,
    Generation,
}

/// An engine failure.
#[derive(Debug)]
pub enum EngineError {
    /// A fault of the compute backend.
    Mlx(String),
    /// Any other fault, such as a recovered panic.
    Other(String),
    /// The model produced invalid logits.
    SmokeProbe(String),
    Oom {
        phase: OomPhase,
        requested_bytes: Option<u64>,
        peak_alloc_mb: Option<u64>,
        msg: String,
    },
    Config(String),
    Loader(String),
    Quant(String),
    Model(String),
    Io(String),
    /// The draft model does not fit the target model.
    SpeculativePairing { reason: String },
    /// The request does not fit the configured context ceiling.
    KvCeilingExceeded { requested: u64, ceiling: u64 },
    /// The request does not fit the hard cap of the cache.
    KvHardCapExceeded { requested: u64, cap: u64 },
}

/// The mathematical value of an [`EngineError`].
pub enum EngineErrorV {
    Mlx(Seq<char>),
    Other(Seq<char>),
    SmokeProbe(Seq<char>),
    Oom(OomPhase, Option<u64>, Option<u64>, Seq<char>),
    Config(Seq<char>),
    Loader(Seq<char>),
    Quant(Seq<char>),
    Model(Seq<char>),
    Io(Seq<char>),
    SpeculativePairing(Seq<char>),
    KvCeilingExceeded(u64, u64),
    KvHardCapExceeded(u64, u64),
}

impl View for EngineError {
    type V = EngineErrorV;

    open spec fn view(&self) -> EngineErrorV {
        match self {
            EngineError::Mlx(s) => EngineErrorV::Mlx(s@),
            EngineError::Other(s) => EngineErrorV::Other(s@),
            EngineError::SmokeProbe(s) => EngineErrorV::SmokeProbe(s@),
            EngineError::Oom { phase, requested_bytes, peak_alloc_mb, msg } => EngineErrorV::Oom(
                *phase,
                *requested_bytes,
                *peak_alloc_mb,
                msg@,
            ),
            EngineError::Config(s) => EngineErrorV::Config(s@),
            EngineError::Loader(s) => EngineErrorV::Loader(s@),
            EngineError::Quant(s) => EngineErrorV::Quant(s@),
            EngineError::Model(s) => EngineErrorV::Model(s@),
            EngineError::Io(s) => EngineErrorV::Io(s@),
            EngineError::SpeculativePairing { reason } => EngineErrorV::SpeculativePairing(
                reason@,
            ),
            EngineError::KvCeilingExceeded { requested, ceiling } => {
                EngineErrorV::KvCeilingExceeded(*requested, *ceiling)
            },
            EngineError::KvHardCapExceeded { requested, cap } => EngineErrorV::KvHardCapExceeded(
                *requested,
                *cap,
            ),
        }
    }
}

/// A backend fault or a recovered panic may not recur on a fresh attempt; every
/// other failure would.
pub open spec fn migratable(e: EngineErrorV) -> bool {
    e is Mlx || e is Other
}

/// The text that a failure carries, where it carries one.
pub open spec fn failure_text(e: EngineErrorV) -> Option<Seq<char>> {
    match e {
        EngineErrorV::Mlx(s) => Some(s),
        EngineErrorV::Other(s) => Some(s),
        EngineErrorV::SmokeProbe(s) => Some(s),
        EngineErrorV::Oom(_, _, _, s) => Some(s),
        EngineErrorV::Config(s) => Some(s),
        EngineErrorV::Loader(s) => Some(s),
        EngineErrorV::Quant(s) => Some(s),
        EngineErrorV::Model(s) => Some(s),
        EngineErrorV::Io(s) => Some(s),
        EngineErrorV::SpeculativePairing(s) => Some(s),
        _ => None,
    }
}

impl EngineError {
    /// The text that the failure carries, where it carries one.
    pub fn message(&self) -> (r: Option<&str>)
        ensures
            match r {
                Some(s) => failure_text(self@) == Some(s@),
                None => failure_text(self@) is None,
            },
    {
        match self {
            EngineError::Mlx(s) => Some(s.as_str()),
            EngineError::Other(s) => Some(s.as_str()),
            EngineError::SmokeProbe(s) => Some(s.as_str()),
            EngineError::Oom { phase: _, requested_bytes: _, peak_alloc_mb: _, msg } => Some(
                msg.as_str(),
            ),
            EngineError::Config(s) => Some(s.as_str()),
            EngineError::Loader(s) => Some(s.as_str()),
            EngineError::Quant(s) => Some(s.as_str()),
            EngineError::Model(s) => Some(s.as_str()),
            EngineError::Io(s) => Some(s.as_str()),
            EngineError::SpeculativePairing { reason } => Some(reason.as_str()),
            EngineError::KvCeilingExceeded { requested: _, ceiling: _ } => None,
            EngineError::KvHardCapExceeded { requested: _, cap: _ } => None,
        }
    }

    /// Whether a fresh attempt may succeed.
    pub fn is_migratable(&self) -> (r: bool)
        ensures
            r == migratable(self@),
    {
        match self {
            EngineError::Mlx(_) => true,
            EngineError::Other(_) => true,
            EngineError::SmokeProbe(_) => false,
            EngineError::Oom { .. } => false,
            EngineError::Config(_) => false,
            EngineError::Loader(_) => false,
            EngineError::Quant(_) => false,
            EngineError::Model(_) => false,
            EngineError::Io(_) => false,
            EngineError::SpeculativePairing { .. } => false,
            EngineError::KvCeilingExceeded { .. } => false,
            EngineError::KvHardCapExceeded { .. } => false,
        }
    }
}

/// A failure carries its own text, where it has one, and may be tried again only when it
/// is a fault of the backend or an unspecific one.
pub proof fn law_failures_carry_their_text(e: EngineError, text: Option<&str>, again: bool)
    requires
        call_ensures(EngineError::message, (&e,), text),
        call_ensures(EngineError::is_migratable, (&e,), again),
    ensures
        again == (e is Mlx || e is Other),
        match e {
            EngineError::Mlx(s) => text matches Some(t) && t@ == s@,
            EngineError::Other(s) => text matches Some(t) && t@ == s@,
            EngineError::SmokeProbe(s) => text matches Some(t) && t@ == s@,
            EngineError::Oom { msg, .. } => text matches Some(t) && t@ == msg@,
            EngineError::Config(s) => text matches Some(t) && t@ == s@,
            EngineError::Loader(s) => text matches Some(t) && t@ == s@,
            EngineError::Quant(s) => text matches Some(t) && t@ == s@,
            EngineError::Model(s) => text matches Some(t) && t@ == s@,
            EngineError::Io(s) => text matches Some(t) && t@ == s@,
            EngineError::SpeculativePairing { reason } => text matches Some(t) && t@ == reason@,
            EngineError::KvCeilingExceeded { .. } => text is None,
            EngineError::KvHardCapExceeded { .. } => text is None,
        },
{
}

} // verus!
