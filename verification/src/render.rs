use vstd::prelude::*;

use vstd::utf8::encode_utf8;

use crate::escape::{escape_html, escape_query, spec_escape_html, spec_escape_query};

verus! {

/// The materialized result of one statement: the column names fixed by the
/// first batch (absent when no batch was produced) and the cell texts,
/// row-major.
pub struct TableData {
    /// The column names, in engine order; `None` until a first batch arrives.
    pub names: Option<Vec<String>>,
    /// The rows, each a list of cell texts in column order.
    pub rows: Vec<Vec<String>>,
}

impl TableData {
    /// The column names as a mathematical value.
    pub open spec fn names_view(&self) -> Option<Seq<Seq<char>>> {
        match self.names {
            Option::None => Option::None,
            Option::Some(ns) => Option::Some(ns.deep_view()),
        }
    }

    /// Well-formed: no rows before a first batch, and every row as wide as
    /// the column list.
    pub open spec fn wf(&self) -> bool {
        match self.names {
            Option::None => self.rows@.len() == 0,
            Option::Some(ns) => forall|i: int|
                0 <= i < self.rows@.len() ==> (#[trigger] self.rows@[i])@.len() == ns@.len(),
        }
    }

    /// An empty result: no batch seen yet.
    pub fn new() -> (t: TableData)
        ensures
            t.names is None,
            t.rows@.len() == 0,
            t.wf(),
    {
        TableData { names: Option::None, rows: Vec::new() }
    }
}

/// The header cells: one escaped `<th>` per column name, in order.
pub open spec fn spec_header_cells(names: Seq<Seq<char>>) -> Seq<char>
    decreases names.len(),
{
    if names.len() == 0 {
        Seq::empty()
    } else {
        "<th>"@ + spec_escape_html(names[0]) + "</th>"@ + spec_header_cells(names.drop_first())
    }
}

/// One row's cells: one escaped `<td>` per cell, in order.
pub open spec fn spec_row_cells(cells: Seq<Seq<char>>) -> Seq<char>
    decreases cells.len(),
{
    if cells.len() == 0 {
        Seq::empty()
    } else {
        "<td>"@ + spec_escape_html(cells[0]) + "</td>"@ + spec_row_cells(cells.drop_first())
    }
}

/// The body: one `<tr>` per row, top to bottom.
pub open spec fn spec_body_rows(rows: Seq<Seq<Seq<char>>>) -> Seq<char>
    decreases rows.len(),
{
    if rows.len() == 0 {
        Seq::empty()
    } else {
        "<tr>"@ + spec_row_cells(rows[0]) + "</tr>"@ + spec_body_rows(rows.drop_first())
    }
}

/// The whole fragment: the header block appears only when a batch fixed the
/// column list; with no batch the shell is emitted empty.
pub open spec fn spec_render_table(names: Option<Seq<Seq<char>>>, rows: Seq<Seq<Seq<char>>>) -> Seq<
    char,
> {
    "<table id=\"results\">"@ + (match names {
        Option::None => Seq::<char>::empty(),
        Option::Some(ns) => "<thead><tr>"@ + spec_header_cells(ns) + "</tr></thead><tbody>"@,
    }) + spec_body_rows(rows) + "</tbody></table>"@
}

fn render_header(names: &Vec<String>) -> (out: String)
    ensures
        out@ == spec_header_cells(names.deep_view()),
{
    let ghost v = names.deep_view();
    let n = names.len();
    let mut out = String::new();
    let mut i: usize = 0;
    proof {
        assert(v.len() == names@.len());
        assert(v.skip(0) =~= v);
        assert(out@ + spec_header_cells(v) =~= spec_header_cells(v));
    }
    while i < n
        invariant
            i <= n,
            n == v.len(),
            v == names.deep_view(),
            n == names@.len(),
            spec_header_cells(v) == out@ + spec_header_cells(v.skip(i as int)),
        decreases n - i,
    {
        proof {
            assert(v.skip(i as int).len() > 0);
            assert(v.skip(i as int)[0] == v[i as int]);
            assert(v[i as int] == names@[i as int]@);
            assert(v.skip(i as int).drop_first() =~= v.skip(i + 1));
        }
        let ghost pre = out@;
        let e = escape_html(names[i].as_str());
        out.append("<th>");
        out.append(e.as_str());
        out.append("</th>");
        proof {
            assert(out@ =~= pre + ("<th>"@ + spec_escape_html(v[i as int]) + "</th>"@));
            assert(pre + (("<th>"@ + spec_escape_html(v[i as int]) + "</th>"@)
                + spec_header_cells(v.skip(i + 1))) =~= out@ + spec_header_cells(v.skip(i + 1)));
        }
        i = i + 1;
    }
    proof {
        assert(v.skip(n as int) =~= Seq::<Seq<char>>::empty());
    }
    out
}

fn render_row(cells: &Vec<String>) -> (out: String)
    ensures
        out@ == spec_row_cells(cells.deep_view()),
{
    let ghost v = cells.deep_view();
    let n = cells.len();
    let mut out = String::new();
    let mut i: usize = 0;
    proof {
        assert(v.len() == cells@.len());
        assert(v.skip(0) =~= v);
        assert(out@ + spec_row_cells(v) =~= spec_row_cells(v));
    }
    while i < n
        invariant
            i <= n,
            n == v.len(),
            v == cells.deep_view(),
            n == cells@.len(),
            spec_row_cells(v) == out@ + spec_row_cells(v.skip(i as int)),
        decreases n - i,
    {
        proof {
            assert(v.skip(i as int).len() > 0);
            assert(v.skip(i as int)[0] == v[i as int]);
            assert(v[i as int] == cells@[i as int]@);
            assert(v.skip(i as int).drop_first() =~= v.skip(i + 1));
        }
        let ghost pre = out@;
        let e = escape_html(cells[i].as_str());
        out.append("<td>");
        out.append(e.as_str());
        out.append("</td>");
        proof {
            assert(out@ =~= pre + ("<td>"@ + spec_escape_html(v[i as int]) + "</td>"@));
            assert(pre + (("<td>"@ + spec_escape_html(v[i as int]) + "</td>"@) + spec_row_cells(
                v.skip(i + 1),
            )) =~= out@ + spec_row_cells(v.skip(i + 1)));
        }
        i = i + 1;
    }
    proof {
        assert(v.skip(n as int) =~= Seq::<Seq<char>>::empty());
    }
    out
}

fn render_body(rows: &Vec<Vec<String>>) -> (out: String)
    ensures
        out@ == spec_body_rows(rows.deep_view()),
{
    let ghost v = rows.deep_view();
    let n = rows.len();
    let mut out = String::new();
    let mut i: usize = 0;
    proof {
        assert(v.len() == rows@.len());
        assert(v.skip(0) =~= v);
        assert(out@ + spec_body_rows(v) =~= spec_body_rows(v));
    }
    while i < n
        invariant
            i <= n,
            n == v.len(),
            v == rows.deep_view(),
            n == rows@.len(),
            spec_body_rows(v) == out@ + spec_body_rows(v.skip(i as int)),
        decreases n - i,
    {
        proof {
            assert(v.skip(i as int).len() > 0);
            assert(v.skip(i as int)[0] == v[i as int]);
            assert(v[i as int] == rows@[i as int].deep_view());
            assert(v.skip(i as int).drop_first() =~= v.skip(i + 1));
        }
        let ghost pre = out@;
        let r = render_row(&rows[i]);
        out.append("<tr>");
        out.append(r.as_str());
        out.append("</tr>");
        proof {
            assert(out@ =~= pre + ("<tr>"@ + spec_row_cells(v[i as int]) + "</tr>"@));
            assert(pre + (("<tr>"@ + spec_row_cells(v[i as int]) + "</tr>"@) + spec_body_rows(
                v.skip(i + 1),
            )) =~= out@ + spec_body_rows(v.skip(i + 1)));
        }
        i = i + 1;
    }
    proof {
        assert(v.skip(n as int) =~= Seq::<Seq<Seq<char>>>::empty());
    }
    out
}

/// Render the materialized result as the escaped HTML table fragment.
pub fn render_table(td: &TableData) -> (out: String)
    ensures
        out@ == spec_render_table(td.names_view(), td.rows.deep_view()),
{
    let mut out = String::new();
    out.append("<table id=\"results\">");
    match &td.names {
        Option::None => {},
        Option::Some(ns) => {
            out.append("<thead><tr>");
            let h = render_header(ns);
            out.append(h.as_str());
            out.append("</tr></thead><tbody>");
        },
    }
    let b = render_body(&td.rows);
    out.append(b.as_str());
    out.append("</tbody></table>");
    proof {
        assert(out@ =~= spec_render_table(td.names_view(), td.rows.deep_view()));
    }
    out
}

/// One example entry: a link whose query parameter is the percent-encoded
/// source, labelled with the escaped name.
pub open spec fn spec_example_entry(name: Seq<char>, source: Seq<char>) -> Seq<char> {
    "<li><a href=\"/?prql="@ + spec_escape_query(encode_utf8(source)) + "\">"@ + spec_escape_html(
        name,
    ) + "</a></li>"@
}

fn push_example(out: &mut String, name: &str, source: &str)
    ensures
        final(out)@ == old(out)@ + spec_example_entry(name@, source@),
{
    out.append("<li><a href=\"/?prql=");
    let q = escape_query(source);
    out.append(q.as_str());
    out.append("\">");
    let h = escape_html(name);
    out.append(h.as_str());
    out.append("</a></li>");
    proof {
        assert(out@ =~= old(out)@ + spec_example_entry(name@, source@));
    }
}

/// The fixed example list, rendered: what the boundary returns when no query
/// text was supplied.
pub open spec fn spec_examples_list() -> Seq<char> {
    "<ul style=\"margin-left: 5%\">"@ + spec_example_entry("All data"@, "\nfrom queue\n"@)
        + spec_example_entry(
        "Aggregate CPU and memory use by user and job state"@,
        "\nfrom queue\nderive {\n  mem_gb = node_count * memory_per_node / 1024,\n}\ngroup {user_name, job_state} (\n  aggregate {\n    total_cpus = sum cpus,\n    total_mem_gb = sum mem_gb,\n  }\n)\nsort { -total_mem_gb }\n"@,
    ) + spec_example_entry(
        "Number of jobs by user"@,
        "\nfrom queue\ngroup user_name (\n  aggregate {\n    num_jobs = count user_name,\n  }\n)\nsort (-num_jobs)\n"@,
    ) + spec_example_entry(
        "Number of jobs by user/account"@,
        "\nfrom queue\ngroup {user_name, account} (\n  aggregate {\n    num_jobs = count 1,\n  }\n)\nsort (-num_jobs)\n"@,
    ) + spec_example_entry(
        "Number of jobs by user with no account"@,
        "\nfrom queue\nfilter account == \"none\"\ngroup user_name (\n  aggregate {\n    num_jobs = count 1,\n  }\n)\nsort (-num_jobs)\n"@,
    ) + "</ul>"@
}

/// Render the fixed example list as linked, URL-encoded entries.
pub fn examples_fragment() -> (out: String)
    ensures
        out@ == spec_examples_list(),
{
    let mut out = String::new();
    out.append("<ul style=\"margin-left: 5%\">");
    push_example(&mut out, "All data", "\nfrom queue\n");
    push_example(
        &mut out,
        "Aggregate CPU and memory use by user and job state",
        "\nfrom queue\nderive {\n  mem_gb = node_count * memory_per_node / 1024,\n}\ngroup {user_name, job_state} (\n  aggregate {\n    total_cpus = sum cpus,\n    total_mem_gb = sum mem_gb,\n  }\n)\nsort { -total_mem_gb }\n",
    );
    push_example(
        &mut out,
        "Number of jobs by user",
        "\nfrom queue\ngroup user_name (\n  aggregate {\n    num_jobs = count user_name,\n  }\n)\nsort (-num_jobs)\n",
    );
    push_example(
        &mut out,
        "Number of jobs by user/account",
        "\nfrom queue\ngroup {user_name, account} (\n  aggregate {\n    num_jobs = count 1,\n  }\n)\nsort (-num_jobs)\n",
    );
    push_example(
        &mut out,
        "Number of jobs by user with no account",
        "\nfrom queue\nfilter account == \"none\"\ngroup user_name (\n  aggregate {\n    num_jobs = count 1,\n  }\n)\nsort (-num_jobs)\n",
    );
    out.append("</ul>");
    proof {
        assert(out@ =~= spec_examples_list());
    }
    out
}

} // verus!
