use vstd::prelude::*;

use crate::ansi::{
    is_escape_introducer, lemma_strip_no_escape_introducer, spec_strip_ansi, strip_ansi, ScanState,
};
use crate::errors::QueryError;

verus! {

/// Normalize the query compiler's outcome. The compiler itself runs outside
/// the library (its input is user-controlled and it can abort on hostile
/// input, so no contract may vouch for the call); whatever it returned is
/// handed in here as plain values. A success passes through unchanged; a
/// diagnostic is classed as a compile error only after control-sequence
/// stripping, so it never holds an escape introducer.
pub fn accept_compilation(outcome: Result<String, String>) -> (r: Result<String, QueryError>)
    ensures
        outcome is Ok ==> r is Ok && r->Ok_0 == outcome->Ok_0,
        outcome is Err ==> (r matches Result::Err(QueryError::CompileError(m)) && m@
            == spec_strip_ansi(outcome->Err_0@) && forall|i: int|
            0 <= i < m@.len() ==> !is_escape_introducer(#[trigger] m@[i])),
{
    match outcome {
        Result::Ok(sql) => Result::Ok(sql),
        Result::Err(raw) => {
            let cleaned = strip_ansi(raw.as_str());
            proof {
                lemma_strip_no_escape_introducer(raw@, ScanState::Normal);
            }
            Result::Err(QueryError::CompileError(cleaned))
        },
    }
}

} // verus!
