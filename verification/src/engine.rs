use vstd::prelude::*;

use vstd::string::StringExecFns;

use crate::errors::{EngineStage, QueryError};
use crate::render::TableData;

verus! {

/// One setup statement of a session: its text, the stage its failure is
/// classed as, and whether the snapshot file's path is its one parameter.
pub struct SetupStatement {
    /// The statement text.
    pub sql: String,
    /// The stage whose error kind a failure of this statement carries.
    pub stage: EngineStage,
    /// Whether the snapshot file's path is bound as the statement's
    /// parameter.
    pub takes_snapshot_path: bool,
}

/// The session's statements before the untrusted compiled one, as an indexed
/// plan in their load-bearing order: first the snapshot load into the single
/// `queue` relation by schema-inferring JSON auto-detection (it needs
/// filesystem access, so it must come first), then the hardening settings —
/// disable the filesystem- and network-backed providers, then lock the
/// configuration so no later statement can re-enable them. The driver runs
/// them in list order and only then the compiled statement.
pub fn session_setup() -> (v: Vec<SetupStatement>)
    ensures
        v@.len() == 3,
        v@[0].sql@ == "CREATE TABLE queue AS SELECT * FROM read_json_auto(?)"@,
        v@[0].stage is Load,
        v@[0].takes_snapshot_path,
        v@[1].sql@ == "SET disabled_filesystems='LocalFileSystem,HTTPFileSystem'"@,
        v@[1].stage is Harden,
        !v@[1].takes_snapshot_path,
        v@[2].sql@ == "SET lock_configuration=true"@,
        v@[2].stage is Harden,
        !v@[2].takes_snapshot_path,
{
    let mut v: Vec<SetupStatement> = Vec::new();
    v.push(
        SetupStatement {
            sql: String::from_str("CREATE TABLE queue AS SELECT * FROM read_json_auto(?)"),
            stage: EngineStage::Load,
            takes_snapshot_path: true,
        },
    );
    v.push(
        SetupStatement {
            sql: String::from_str("SET disabled_filesystems='LocalFileSystem,HTTPFileSystem'"),
            stage: EngineStage::Harden,
            takes_snapshot_path: false,
        },
    );
    v.push(
        SetupStatement {
            sql: String::from_str("SET lock_configuration=true"),
            stage: EngineStage::Harden,
            takes_snapshot_path: false,
        },
    );
    v
}

/// Whether one batch fits the stream so far: the first batch fixes the column
/// count, every later batch must repeat it, and every row must be exactly as
/// wide.
pub open spec fn batch_fits(
    prev: Option<Seq<Seq<char>>>,
    names: Seq<Seq<char>>,
    cells: Seq<Seq<Seq<char>>>,
) -> bool {
    let width = match prev {
        Option::None => names.len(),
        Option::Some(ns) => ns.len(),
    };
    &&& (match prev {
        Option::None => true,
        Option::Some(ns) => names.len() == ns.len(),
    })
    &&& forall|i: int| 0 <= i < cells.len() ==> (#[trigger] cells[i]).len() == width
}

/// Fold one result batch, given as its column names and its rows of cell
/// texts, into the materialized table. The first batch fixes the column list,
/// which is authoritative for the whole stream; a later batch with a
/// different column count, or a ragged batch, is rejected loudly as a failed
/// execution, leaving the table untouched.
pub fn accumulate_batch(td: &mut TableData, names: Vec<String>, cells: Vec<Vec<String>>) -> (r:
    Result<(), QueryError>)
    ensures
        r is Ok <==> batch_fits(old(td).names_view(), names.deep_view(), cells.deep_view()),
        r is Ok ==> final(td).names_view() == (match old(td).names_view() {
            Option::None => Option::Some(names.deep_view()),
            Option::Some(ns) => Option::Some(ns),
        }) && final(td).rows.deep_view() == old(td).rows.deep_view() + cells.deep_view(),
        r is Err ==> *final(td) == *old(td) && r->Err_0 is QueryExecutionFailed,
        old(td).wf() ==> final(td).wf(),
{
    let ghost prev = td.names_view();
    proof {
        assert(names.deep_view().len() == names@.len());
        if td.names is Some {
            assert(prev->0.len() == td.names->0@.len());
        }
    }
    let width: usize = match &td.names {
        Option::None => names.len(),
        Option::Some(ns) => {
            if names.len() != ns.len() {
                return Result::Err(
                    QueryError::QueryExecutionFailed(
                        String::from_str("result batches have differing column counts"),
                    ),
                );
            }
            ns.len()
        },
    };
    let n = cells.len();
    let mut i: usize = 0;
    while i < n
        invariant
            i <= n,
            n == cells@.len(),
            prev == old(td).names_view(),
            *td == *old(td),
            forall|j: int| 0 <= j < i ==> (#[trigger] cells.deep_view()[j]).len() == width,
            width == (match prev {
                Option::None => names.deep_view().len(),
                Option::Some(ns) => ns.len(),
            }),
            prev is Some ==> names.deep_view().len() == width,
        decreases n - i,
    {
        if cells[i].len() != width {
            proof {
                assert(cells.deep_view()[i as int].len() == cells@[i as int]@.len());
            }
            return Result::Err(
                QueryError::QueryExecutionFailed(
                    String::from_str("result batch rows have differing widths"),
                ),
            );
        }
        proof {
            assert(cells.deep_view()[i as int].len() == cells@[i as int]@.len());
        }
        i = i + 1;
    }
    let ghost old_rows = td.rows.deep_view();
    let ghost incoming_view = cells.deep_view();
    if td.names.is_none() {
        td.names = Option::Some(names);
    }
    let mut incoming = cells;
    td.rows.append(&mut incoming);
    proof {
        assert(td.rows.deep_view() =~= old_rows + incoming_view);
        if old(td).wf() {
            let ns = td.names_view()->0;
            assert forall|j: int| 0 <= j < td.rows@.len() implies (#[trigger] td.rows@[j])@.len()
                == ns.len() by {
                assert(td.rows.deep_view()[j].len() == td.rows@[j]@.len());
                if j < old_rows.len() {
                    assert(old_rows[j] == old(td).rows.deep_view()[j]);
                } else {
                    assert(td.rows.deep_view()[j] == incoming_view[j - old_rows.len()]);
                }
            }
        }
    }
    Result::Ok(())
}

} // verus!
