use vstd::prelude::*;

use vstd::string::StringExecFns;

use crate::errors::QueryError;
use crate::render::{examples_fragment, spec_examples_list};

verus! {

/// What the boundary decides before any compiler, snapshot or engine session
/// exists.
pub enum RequestStep {
    /// No query text was supplied: the finished fragment, the fixed example
    /// list; no pipeline stage runs.
    Fragment(String),
    /// Query text was supplied: this source goes to the compiler, and
    /// nothing else runs until its outcome has been accepted.
    Compile(String),
}

/// The boundary's first decision: without query text, render the example
/// list and stop; with it, hand the source on to the compiler unchanged.
pub fn start_request(query: Option<&str>) -> (step: RequestStep)
    ensures
        query is None ==> (step matches RequestStep::Fragment(f) && f@ == spec_examples_list()),
        query is Some ==> (step matches RequestStep::Compile(source) && source@ == query->0@),
{
    match query {
        Option::None => RequestStep::Fragment(examples_fragment()),
        Option::Some(q) => RequestStep::Compile(String::from_str(q)),
    }
}

/// Decide on the snapshot outcome before the engine stage: an acquisition
/// failure becomes the matching error kind and no engine session follows; a
/// success hands the snapshot path on unchanged.
pub fn accept_snapshot(outcome: Result<String, String>) -> (r: Result<String, QueryError>)
    ensures
        outcome is Ok ==> r is Ok && r->Ok_0 == outcome->Ok_0,
        outcome is Err ==> (r matches Result::Err(QueryError::SnapshotAcquisitionFailed(m)) && m
            == outcome->Err_0),
{
    match outcome {
        Result::Ok(path) => Result::Ok(path),
        Result::Err(m) => Result::Err(QueryError::SnapshotAcquisitionFailed(m)),
    }
}

} // verus!
