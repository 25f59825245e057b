use queue_query::ansi::strip_ansi;
use queue_query::escape::{escape_html, escape_query};

fn percent_decode(s: &str) -> Vec<u8> {
    let b = s.as_bytes();
    let mut out = Vec::new();
    let mut i = 0;
    while i < b.len() {
        if b[i] == b'%' && i + 2 < b.len() {
            let hex = std::str::from_utf8(&b[i + 1..i + 3]).unwrap();
            let v = u8::from_str_radix(hex, 16).unwrap();
            out.push(v);
            i += 3;
        } else {
            out.push(b[i]);
            i += 1;
        }
    }
    out
}

#[test]
fn strip_ansi_plain_text_is_unchanged() {
    assert_eq!(strip_ansi("hello, queue world"), "hello, queue world");
    assert_eq!(strip_ansi(""), "");
    assert_eq!(strip_ansi("tabs\tand\nnewlines"), "tabs\tand\nnewlines");
}

#[test]
fn strip_ansi_removes_csi_sequences() {
    assert_eq!(strip_ansi("a\x1B[31mb"), "ab");
    assert_eq!(strip_ansi("\x1B[1;32mbold green\x1B[0m"), "bold green");
    assert_eq!(strip_ansi("x\x1B[12;34Hy"), "xy");
}

#[test]
fn strip_ansi_drops_non_csi_escape() {
    assert_eq!(strip_ansi("a\x1BZb"), "ab");
}

#[test]
fn strip_ansi_drops_truncated_sequence_at_end() {
    assert_eq!(strip_ansi("x\x1B[12"), "x");
    assert_eq!(strip_ansi("x\x1B"), "x");
}

#[test]
fn strip_ansi_is_idempotent() {
    let samples = ["a\x1B[31mb", "plain", "\x1B[0m\x1B[1m", "mid\x1Bdle", "x\x1B["];
    for s in samples {
        let once = strip_ansi(s);
        assert_eq!(strip_ansi(&once), once);
    }
}

#[test]
fn escape_html_replaces_the_five_special_characters() {
    assert_eq!(
        escape_html("<a href=\"x\">&'</a>"),
        "&lt;a href=&quot;x&quot;&gt;&amp;&#39;&lt;/a&gt;"
    );
}

#[test]
fn escape_html_passes_other_text_through() {
    assert_eq!(escape_html("héllo wörld"), "héllo wörld");
    assert_eq!(escape_html(""), "");
}

#[test]
fn escape_html_double_escapes_escaped_text() {
    assert_eq!(escape_html("&amp;"), "&amp;amp;");
}

#[test]
fn escape_html_output_has_no_unescaped_specials() {
    let out = escape_html("a<b>c\"d'e&f");
    assert!(!out.contains('<'));
    assert!(!out.contains('>'));
    assert!(!out.contains('"'));
    assert!(!out.contains('\''));
}

#[test]
fn escape_query_keeps_plain_bytes() {
    assert_eq!(escape_query("a Zz09-.~ b"), "a Zz09-.~ b");
}

#[test]
fn escape_query_encodes_reserved_bytes_uppercase() {
    assert_eq!(escape_query("=&#%"), "%3D%26%23%25");
    assert_eq!(escape_query("é"), "%C3%A9");
    assert_eq!(escape_query("a+b"), "a%2Bb");
}

#[test]
fn escape_query_round_trips_through_percent_decoding() {
    let samples = [
        "",
        "from queue",
        "=&#%",
        "a b c",
        "héllo wörld — ünïcode",
        "line\nbreaks\tand {braces}",
        "100% ~done~",
    ];
    for s in samples {
        let encoded = escape_query(s);
        let decoded = percent_decode(&encoded);
        assert_eq!(decoded, s.as_bytes(), "round trip failed for {s:?}");
    }
}
