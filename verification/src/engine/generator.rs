//! A generator that is not ready.

use vstd::prelude::*;

use crate::engine::error::{EngineError, EngineErrorV};
use crate::engine::types::{GenerationRequest, GenerationToken};

verus! {

/// Stands in for a generator before a model is loaded.
#[derive(Debug)]
pub struct NotReadyGenerator;

impl NotReadyGenerator {
    /// The items of its stream: exactly one failure, whatever the request.
    pub fn generate(&self, req: &GenerationRequest) -> (r: Vec<Result<GenerationToken, EngineError>>)
        ensures
            r@.len() == 1,
            r@[0] matches Err(e) && e@ == EngineErrorV::Other("generator not ready"@),
    {
        let mut out: Vec<Result<GenerationToken, EngineError>> = Vec::new();
        out.push(Err(EngineError::Other("generator not ready".to_owned())));
        out
    }
}

/// A generator that is not ready answers every request with one failure.
pub proof fn law_not_ready_is_a_failure(
    g: NotReadyGenerator,
    req: GenerationRequest,
    r: Vec<Result<GenerationToken, EngineError>>,
)
    requires
        call_ensures(NotReadyGenerator::generate, (&g, &req), r),
    ensures
        r@.len() == 1,
        r@[0] matches Err(EngineError::Other(t)) && t@ == "generator not ready"@,
{
}

} // verus!
