use vstd::prelude::*;

verus! {

/// One failure kind per pipeline stage; the carried text is the underlying
/// diagnostic.
#[derive(Debug)]
pub enum QueryError {
    /// The external snapshot source could not be run or exited non-zero.
    SnapshotAcquisitionFailed(String),
    /// The query-language source is invalid; the text is safe to show once
    /// control sequences are stripped.
    CompileError(String),
    /// A fresh in-memory engine session could not be opened.
    EngineOpenFailed(String),
    /// The snapshot could not be loaded as the `queue` relation.
    SnapshotLoadFailed(String),
    /// The sandbox hardening settings could not be applied.
    SandboxHardenFailed(String),
    /// The compiled statement failed against the loaded relation.
    QueryExecutionFailed(String),
}

impl QueryError {
    /// The stage-identifying text of this error.
    pub open spec fn spec_message(&self) -> Seq<char> {
        match self {
            QueryError::SnapshotAcquisitionFailed(m) => "snapshot acquisition failed: "@ + m@,
            QueryError::CompileError(m) => "compile error: "@ + m@,
            QueryError::EngineOpenFailed(m) => "engine session could not be opened: "@ + m@,
            QueryError::SnapshotLoadFailed(m) => "snapshot could not be loaded: "@ + m@,
            QueryError::SandboxHardenFailed(m) => "sandbox could not be hardened: "@ + m@,
            QueryError::QueryExecutionFailed(m) => "query execution failed: "@ + m@,
        }
    }

    /// Render this error as one line of diagnostic text with a
    /// stage-identifying prefix.
    pub fn message(&self) -> (out: String)
        ensures
            out@ == self.spec_message(),
    {
        let mut out = String::new();
        match self {
            QueryError::SnapshotAcquisitionFailed(m) => {
                out.append("snapshot acquisition failed: ");
                out.append(m.as_str());
            }
            QueryError::CompileError(m) => {
                out.append("compile error: ");
                out.append(m.as_str());
            }
            QueryError::EngineOpenFailed(m) => {
                out.append("engine session could not be opened: ");
                out.append(m.as_str());
            }
            QueryError::SnapshotLoadFailed(m) => {
                out.append("snapshot could not be loaded: ");
                out.append(m.as_str());
            }
            QueryError::SandboxHardenFailed(m) => {
                out.append("sandbox could not be hardened: ");
                out.append(m.as_str());
            }
            QueryError::QueryExecutionFailed(m) => {
                out.append("query execution failed: ");
                out.append(m.as_str());
            }
        }
        out
    }
}

/// The stages of one engine session, in the order the driver runs them.
pub enum EngineStage {
    /// Opening the fresh in-memory session.
    Open,
    /// Loading the snapshot as the `queue` relation.
    Load,
    /// Applying the hardening settings.
    Harden,
    /// Preparing and executing the compiled statement, and fetching batches.
    Execute,
}

/// Wrap one engine stage's failure text in the matching error kind.
pub fn stage_error(stage: EngineStage, message: String) -> (e: QueryError)
    ensures
        e == match stage {
            EngineStage::Open => QueryError::EngineOpenFailed(message),
            EngineStage::Load => QueryError::SnapshotLoadFailed(message),
            EngineStage::Harden => QueryError::SandboxHardenFailed(message),
            EngineStage::Execute => QueryError::QueryExecutionFailed(message),
        },
{
    match stage {
        EngineStage::Open => QueryError::EngineOpenFailed(message),
        EngineStage::Load => QueryError::SnapshotLoadFailed(message),
        EngineStage::Harden => QueryError::SandboxHardenFailed(message),
        EngineStage::Execute => QueryError::QueryExecutionFailed(message),
    }
}

} // verus!
