use queue_query::engine::accumulate_batch;
use queue_query::errors::QueryError;
use queue_query::render::{render_table, TableData};

fn strings(xs: &[&str]) -> Vec<String> {
    xs.iter().map(|s| s.to_string()).collect()
}

#[test]
fn empty_result_renders_an_empty_shell() {
    let td = TableData::new();
    assert_eq!(render_table(&td), "<table id=\"results\"></tbody></table>");
}

#[test]
fn two_records_render_one_row_each_under_their_headers() {
    let mut td = TableData::new();
    let names = strings(&["job_id", "name"]);
    let rows = vec![strings(&["1", "alpha"]), strings(&["2", "beta"])];
    accumulate_batch(&mut td, names, rows).unwrap();
    let html = render_table(&td);
    assert_eq!(
        html,
        "<table id=\"results\"><thead><tr><th>job_id</th><th>name</th></tr></thead><tbody>\
         <tr><td>1</td><td>alpha</td></tr><tr><td>2</td><td>beta</td></tr></tbody></table>"
    );
    assert_eq!(html.matches("<tr>").count(), 3);
}

#[test]
fn later_batches_extend_the_rows() {
    let mut td = TableData::new();
    accumulate_batch(&mut td, strings(&["c"]), vec![strings(&["x"])]).unwrap();
    accumulate_batch(&mut td, strings(&["c"]), vec![strings(&["y"]), strings(&["z"])]).unwrap();
    let html = render_table(&td);
    assert_eq!(
        html,
        "<table id=\"results\"><thead><tr><th>c</th></tr></thead><tbody>\
         <tr><td>x</td></tr><tr><td>y</td></tr><tr><td>z</td></tr></tbody></table>"
    );
}

#[test]
fn zero_row_batch_renders_headers_only() {
    let mut td = TableData::new();
    accumulate_batch(&mut td, strings(&["only"]), Vec::new()).unwrap();
    assert_eq!(
        render_table(&td),
        "<table id=\"results\"><thead><tr><th>only</th></tr></thead><tbody></tbody></table>"
    );
}

#[test]
fn cell_text_is_escaped_in_headers_and_cells() {
    let mut td = TableData::new();
    accumulate_batch(&mut td, strings(&["a<b"]), vec![strings(&["x\"&'y"])]).unwrap();
    assert_eq!(
        render_table(&td),
        "<table id=\"results\"><thead><tr><th>a&lt;b</th></tr></thead><tbody>\
         <tr><td>x&quot;&amp;&#39;y</td></tr></tbody></table>"
    );
}

#[test]
fn batch_with_different_column_count_is_rejected() {
    let mut td = TableData::new();
    accumulate_batch(&mut td, strings(&["a", "b"]), vec![strings(&["1", "2"])]).unwrap();
    let r = accumulate_batch(&mut td, strings(&["a"]), vec![strings(&["1"])]);
    assert!(matches!(r, Err(QueryError::QueryExecutionFailed(_))));
    // the table is untouched by the rejected batch
    assert_eq!(
        render_table(&td),
        "<table id=\"results\"><thead><tr><th>a</th><th>b</th></tr></thead><tbody>\
         <tr><td>1</td><td>2</td></tr></tbody></table>"
    );
}

#[test]
fn two_requests_keep_their_results_apart() {
    // one in-flight result per request by construction: nothing is shared
    let mut first = TableData::new();
    let mut second = TableData::new();
    accumulate_batch(&mut first, strings(&["n"]), vec![strings(&["1"])]).unwrap();
    accumulate_batch(&mut second, strings(&["n"]), vec![strings(&["1"]), strings(&["2"])])
        .unwrap();
    let first_html = render_table(&first);
    let second_html = render_table(&second);
    assert_eq!(first_html.matches("<tr>").count(), 2);
    assert_eq!(second_html.matches("<tr>").count(), 3);
}

#[test]
fn ragged_batch_is_rejected() {
    let mut td = TableData::new();
    let r = accumulate_batch(&mut td, strings(&["a", "b"]), vec![strings(&["only one"])]);
    assert!(matches!(r, Err(QueryError::QueryExecutionFailed(_))));
    assert_eq!(render_table(&td), "<table id=\"results\"></tbody></table>");
}
