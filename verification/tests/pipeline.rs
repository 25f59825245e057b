use queue_query::compiler::accept_compilation;
use queue_query::engine::session_setup;
use queue_query::errors::{stage_error, EngineStage, QueryError};
use queue_query::pipeline::{accept_snapshot, start_request, RequestStep};
use queue_query::render::examples_fragment;

const EXAMPLES: &[(&str, &str)] = &[
    ("All data", "\nfrom queue\n"),
    (
        "Aggregate CPU and memory use by user and job state",
        "\nfrom queue\nderive {\n  mem_gb = node_count * memory_per_node / 1024,\n}\ngroup {user_name, job_state} (\n  aggregate {\n    total_cpus = sum cpus,\n    total_mem_gb = sum mem_gb,\n  }\n)\nsort { -total_mem_gb }\n",
    ),
    (
        "Number of jobs by user",
        "\nfrom queue\ngroup user_name (\n  aggregate {\n    num_jobs = count user_name,\n  }\n)\nsort (-num_jobs)\n",
    ),
    (
        "Number of jobs by user/account",
        "\nfrom queue\ngroup {user_name, account} (\n  aggregate {\n    num_jobs = count 1,\n  }\n)\nsort (-num_jobs)\n",
    ),
    (
        "Number of jobs by user with no account",
        "\nfrom queue\nfilter account == \"none\"\ngroup user_name (\n  aggregate {\n    num_jobs = count 1,\n  }\n)\nsort (-num_jobs)\n",
    ),
];

fn reference_query_escape(s: &str) -> String {
    let mut out = String::new();
    for &b in s.as_bytes() {
        match b {
            b'a'..=b'z' | b'A'..=b'Z' | b'0'..=b'9' | b'-' | b'.' | b' ' | b'~' => {
                out.push(b as char)
            }
            other => out.push_str(&format!("%{:02X}", other)),
        }
    }
    out
}

/// The compiler call as the driver makes it: fixed options, outcome as plain
/// values.
fn compile_prql(source: &str) -> Result<String, String> {
    let options = prqlc::Options::default()
        .with_format(true)
        .with_target(prqlc::Target::Sql(Some(prqlc::sql::Dialect::DuckDb)))
        .with_signature_comment(false);
    prqlc::compile(source, &options).map_err(|e| e.to_string())
}

#[test]
fn accepted_compilation_of_simple_query_yields_sql_over_queue() {
    let sql = accept_compilation(compile_prql("from queue")).unwrap();
    let lowered = sql.to_lowercase();
    assert!(lowered.contains("select"), "no select in {sql:?}");
    assert!(lowered.contains("queue"), "no queue in {sql:?}");
}

#[test]
fn compile_error_text_holds_no_escape_introducer() {
    let raw = compile_prql("from queue\nderive {").unwrap_err();
    match accept_compilation(Err(raw)).unwrap_err() {
        QueryError::CompileError(m) => {
            assert!(!m.is_empty());
            assert!(!m.contains('\u{1B}'), "escape introducer in {m:?}");
        }
        other => panic!("expected a compile error, got {:?}", other.message()),
    }
}

#[test]
fn accepted_compilation_strips_colour_codes_from_diagnostics() {
    let coloured = "\u{1B}[31munknown name\u{1B}[0m `queu`".to_string();
    match accept_compilation(Err(coloured)).unwrap_err() {
        QueryError::CompileError(m) => assert_eq!(m, "unknown name `queu`"),
        _ => panic!("expected a compile error"),
    }
}

#[test]
fn no_query_returns_exactly_the_example_list() {
    let step = start_request(None);
    let fragment = match step {
        RequestStep::Fragment(f) => f,
        _ => panic!("expected the example fragment"),
    };
    let mut expected = String::from("<ul style=\"margin-left: 5%\">");
    for (name, source) in EXAMPLES {
        expected.push_str(&format!(
            "<li><a href=\"/?prql={}\">{}</a></li>",
            reference_query_escape(source),
            name
        ));
    }
    expected.push_str("</ul>");
    assert_eq!(fragment, expected);
    assert_eq!(fragment, examples_fragment());
}

#[test]
fn a_query_is_handed_to_the_compiler_unchanged() {
    match start_request(Some("from queue\nderive {")) {
        RequestStep::Compile(source) => assert_eq!(source, "from queue\nderive {"),
        _ => panic!("expected the source to go to the compiler"),
    }
}

#[test]
fn session_setup_loads_then_hardens_in_order() {
    let steps = session_setup();
    assert_eq!(steps.len(), 3);
    assert_eq!(steps[0].sql, "CREATE TABLE queue AS SELECT * FROM read_json_auto(?)");
    assert!(matches!(steps[0].stage, EngineStage::Load));
    assert!(steps[0].takes_snapshot_path);
    assert_eq!(steps[1].sql, "SET disabled_filesystems='LocalFileSystem,HTTPFileSystem'");
    assert!(matches!(steps[1].stage, EngineStage::Harden));
    assert!(!steps[1].takes_snapshot_path);
    assert_eq!(steps[2].sql, "SET lock_configuration=true");
    assert!(matches!(steps[2].stage, EngineStage::Harden));
    assert!(!steps[2].takes_snapshot_path);
}

#[test]
fn failed_snapshot_source_short_circuits_as_acquisition_failure() {
    let r = accept_snapshot(Err("command failed".to_string()));
    match r {
        Err(QueryError::SnapshotAcquisitionFailed(m)) => assert_eq!(m, "command failed"),
        _ => panic!("expected a snapshot acquisition failure"),
    }
}

#[test]
fn successful_snapshot_passes_its_path_through() {
    let r = accept_snapshot(Ok("/tmp/snapshot/queue.json".to_string()));
    assert_eq!(r.unwrap(), "/tmp/snapshot/queue.json");
}

#[test]
fn stage_errors_carry_their_stage() {
    assert!(matches!(
        stage_error(EngineStage::Open, "boom".into()),
        QueryError::EngineOpenFailed(_)
    ));
    assert!(matches!(
        stage_error(EngineStage::Load, "boom".into()),
        QueryError::SnapshotLoadFailed(_)
    ));
    assert!(matches!(
        stage_error(EngineStage::Harden, "boom".into()),
        QueryError::SandboxHardenFailed(_)
    ));
    assert!(matches!(
        stage_error(EngineStage::Execute, "boom".into()),
        QueryError::QueryExecutionFailed(_)
    ));
}

#[test]
fn error_messages_name_their_stage() {
    let e = QueryError::SnapshotAcquisitionFailed("exit status 1".to_string());
    assert_eq!(e.message(), "snapshot acquisition failed: exit status 1");
    let e = QueryError::CompileError("unmatched brace".to_string());
    assert_eq!(e.message(), "compile error: unmatched brace");
    let e = QueryError::QueryExecutionFailed("no such column".to_string());
    assert_eq!(e.message(), "query execution failed: no such column");
}
