use vstd::prelude::*;

use vstd::utf8::{decode_utf8, encode_utf8, encode_utf8_decode_utf8};

use crate::text::push_char;

verus! {

/// The replacement for one character in HTML text: the five characters with
/// markup meaning become entities, everything else passes through.
pub open spec fn html_escape_char(c: char) -> Seq<char> {
    if c == '&' {
        "&amp;"@
    } else if c == '<' {
        "&lt;"@
    } else if c == '>' {
        "&gt;"@
    } else if c == '"' {
        "&quot;"@
    } else if c == '\'' {
        "&#39;"@
    } else {
        seq![c]
    }
}

/// The HTML-escaped form of a string: each character replaced in order.
pub open spec fn spec_escape_html(s: Seq<char>) -> Seq<char>
    decreases s.len(),
{
    if s.len() == 0 {
        Seq::empty()
    } else {
        html_escape_char(s[0]) + spec_escape_html(s.drop_first())
    }
}

/// Escape a string so it is safe both as HTML element text and inside a
/// quoted attribute value.
pub fn escape_html(s: &str) -> (out: String)
    ensures
        out@ == spec_escape_html(s@),
{
    let n = s.unicode_len();
    let mut out = String::new();
    let mut i: usize = 0;
    proof {
        assert(s@.skip(0) =~= s@);
        assert(out@ + spec_escape_html(s@) =~= spec_escape_html(s@));
    }
    while i < n
        invariant
            i <= n,
            n == s@.len(),
            spec_escape_html(s@) == out@ + spec_escape_html(s@.skip(i as int)),
        decreases n - i,
    {
        let c = s.get_char(i);
        proof {
            assert(s@.skip(i as int).len() > 0);
            assert(s@.skip(i as int)[0] == c);
            assert(s@.skip(i as int).drop_first() =~= s@.skip(i + 1));
        }
        let ghost pre = out@;
        if c == '&' {
            out.append("&amp;");
        } else if c == '<' {
            out.append("&lt;");
        } else if c == '>' {
            out.append("&gt;");
        } else if c == '"' {
            out.append("&quot;");
        } else if c == '\'' {
            out.append("&#39;");
        } else {
            push_char(&mut out, c);
        }
        proof {
            assert(out@ =~= pre + html_escape_char(c));
            assert(pre + (html_escape_char(c) + spec_escape_html(s@.skip(i + 1)))
                =~= out@ + spec_escape_html(s@.skip(i + 1)));
        }
        i = i + 1;
    }
    proof {
        assert(s@.skip(n as int) =~= Seq::<char>::empty());
    }
    out
}

/// One of the five entity spellings starts at the front of `t`.
pub open spec fn entity_starts_at(t: Seq<char>) -> bool {
    ||| "&amp;"@.is_prefix_of(t)
    ||| "&lt;"@.is_prefix_of(t)
    ||| "&gt;"@.is_prefix_of(t)
    ||| "&quot;"@.is_prefix_of(t)
    ||| "&#39;"@.is_prefix_of(t)
}

/// The escaped output never holds a literal `<`, `>`, `"` or `'`, and every
/// `&` in it begins one of the five entities.
pub proof fn lemma_escape_html_safe(s: Seq<char>)
    ensures
        forall|i: int|
            0 <= i < spec_escape_html(s).len() ==> #[trigger] spec_escape_html(s)[i] != '<'
                && spec_escape_html(s)[i] != '>' && spec_escape_html(s)[i] != '"'
                && spec_escape_html(s)[i] != '\'',
        forall|i: int|
            0 <= i < spec_escape_html(s).len() && #[trigger] spec_escape_html(s)[i] == '&'
                ==> entity_starts_at(spec_escape_html(s).skip(i)),
    decreases s.len(),
{
    reveal_strlit("&amp;");
    reveal_strlit("&lt;");
    reveal_strlit("&gt;");
    reveal_strlit("&quot;");
    reveal_strlit("&#39;");
    if s.len() > 0 {
        lemma_escape_html_safe(s.drop_first());
        let c = s[0];
        let head = html_escape_char(c);
        let tail = spec_escape_html(s.drop_first());
        let whole = spec_escape_html(s);
        assert(whole == head + tail);
        assert forall|i: int|
            0 <= i < whole.len() implies #[trigger] whole[i] != '<' && whole[i] != '>'
            && whole[i] != '"' && whole[i] != '\'' by {
            if i < head.len() {
                assert(whole[i] == head[i]);
            } else {
                assert(whole[i] == tail[i - head.len()]);
            }
        }
        assert forall|i: int|
            0 <= i < whole.len() && #[trigger] whole[i] == '&' implies entity_starts_at(
            whole.skip(i),
        ) by {
            if i < head.len() {
                assert(whole[i] == head[i]);
                if i == 0 {
                    assert(whole.skip(0) =~= whole);
                    assert(head.is_prefix_of(whole)) by {
                        assert(head =~= whole.subrange(0, head.len() as int));
                    }
                    if c == '&' {
                    } else if c == '<' {
                    } else if c == '>' {
                    } else if c == '"' {
                    } else if c == '\'' {
                    } else {
                        assert(whole[0] == c && c != '&');
                    }
                } else {
                    assert(head[i] != '&');
                }
            } else {
                assert(whole[i] == tail[i - head.len()]);
                assert(whole.skip(i) =~= tail.skip(i - head.len()));
                assert(entity_starts_at(tail.skip(i - head.len())));
            }
        }
    }
}

/// Bytes that pass through the query-component escaper unchanged: ASCII
/// letters, digits, `-`, `.`, space and `~`.
pub open spec fn is_query_plain(b: u8) -> bool {
    ||| 0x61 <= b && b <= 0x7A  // a-z
    ||| 0x41 <= b && b <= 0x5A  // A-Z
    ||| 0x30 <= b && b <= 0x39  // 0-9
    ||| b == 0x2D  // -
    ||| b == 0x2E  // .
    ||| b == 0x20  // space
    ||| b == 0x7E  // ~
}

/// The uppercase hexadecimal digit for a value below sixteen.
pub open spec fn spec_hex_digit(d: u8) -> char
    recommends
        d < 16,
{
    if d < 10 {
        ((d + 0x30) as u8) as char
    } else {
        ((d + 0x37) as u8) as char
    }
}

/// The escaped spelling of one byte: itself, or `%` and two hex digits.
pub open spec fn query_escape_byte(b: u8) -> Seq<char> {
    if is_query_plain(b) {
        seq![b as char]
    } else {
        seq!['%', spec_hex_digit(b / 16), spec_hex_digit(b % 16)]
    }
}

/// The percent-encoded form of a byte string.
pub open spec fn spec_escape_query(bs: Seq<u8>) -> Seq<char>
    decreases bs.len(),
{
    if bs.len() == 0 {
        Seq::empty()
    } else {
        query_escape_byte(bs[0]) + spec_escape_query(bs.drop_first())
    }
}

/// The uppercase hexadecimal digit for a value below sixteen.
fn hex_digit(d: u8) -> (c: char)
    requires
        d < 16,
    ensures
        c == spec_hex_digit(d),
{
    if d < 10 {
        (d + 0x30) as char
    } else {
        (d + 0x37) as char
    }
}

/// Percent-encode a string for embedding in a URL query component. Space is
/// deliberately left as itself; the consuming side tolerates it there.
pub fn escape_query(s: &str) -> (out: String)
    ensures
        out@ == spec_escape_query(encode_utf8(s@)),
{
    let bytes = s.as_bytes();
    let n = bytes.len();
    let mut out = String::new();
    let mut i: usize = 0;
    proof {
        assert(bytes@.skip(0) =~= bytes@);
        assert(out@ + spec_escape_query(bytes@) =~= spec_escape_query(bytes@));
    }
    while i < n
        invariant
            i <= n,
            n == bytes@.len(),
            bytes@ == encode_utf8(s@),
            spec_escape_query(bytes@) == out@ + spec_escape_query(bytes@.skip(i as int)),
        decreases n - i,
    {
        let b = bytes[i];
        proof {
            assert(bytes@.skip(i as int).len() > 0);
            assert(bytes@.skip(i as int)[0] == b);
            assert(bytes@.skip(i as int).drop_first() =~= bytes@.skip(i + 1));
        }
        let ghost pre = out@;
        if (0x61 <= b && b <= 0x7A) || (0x41 <= b && b <= 0x5A) || (0x30 <= b && b <= 0x39)
            || b == 0x2D || b == 0x2E || b == 0x20 || b == 0x7E {
            push_char(&mut out, b as char);
        } else {
            push_char(&mut out, '%');
            let hi = hex_digit(b / 16);
            push_char(&mut out, hi);
            let lo = hex_digit(b % 16);
            push_char(&mut out, lo);
        }
        proof {
            assert(out@ =~= pre + query_escape_byte(b));
            assert(pre + (query_escape_byte(b) + spec_escape_query(bytes@.skip(i + 1)))
                =~= out@ + spec_escape_query(bytes@.skip(i + 1)));
        }
        i = i + 1;
    }
    proof {
        assert(bytes@.skip(n as int) =~= Seq::<u8>::empty());
    }
    out
}

/// A hexadecimal digit character, either case.
pub open spec fn is_hex_digit_char(c: char) -> bool {
    (0x30 <= c as u32 && c as u32 <= 0x39) || (0x41 <= c as u32 && c as u32 <= 0x46) || (0x61 <= c
        as u32 && c as u32 <= 0x66)
}

/// The value of a hexadecimal digit character, either case.
pub open spec fn hex_char_value(c: char) -> u8
    recommends
        is_hex_digit_char(c),
{
    if c as u32 <= 0x39 {
        (c as u32 - 0x30) as u8
    } else if c as u32 <= 0x46 {
        (c as u32 - 0x37) as u8
    } else {
        (c as u32 - 0x57) as u8
    }
}

/// Standard percent-decoding: `%` followed by two hex digits becomes one
/// byte, every other character becomes its own byte.
pub open spec fn spec_percent_decode(t: Seq<char>) -> Seq<u8>
    decreases t.len(),
{
    if t.len() == 0 {
        Seq::empty()
    } else if t[0] == '%' && t.len() >= 3 && is_hex_digit_char(t[1]) && is_hex_digit_char(t[2]) {
        seq![(hex_char_value(t[1]) * 16 + hex_char_value(t[2])) as u8] + spec_percent_decode(
            t.skip(3),
        )
    } else {
        seq![(t[0] as u32) as u8] + spec_percent_decode(t.drop_first())
    }
}

proof fn lemma_hex_digit_value(d: u8)
    requires
        d < 16,
    ensures
        is_hex_digit_char(spec_hex_digit(d)),
        hex_char_value(spec_hex_digit(d)) == d,
{
}

/// Percent-decoding the escaped form of any byte string gives it back.
pub proof fn lemma_escape_query_round_trip_bytes(bs: Seq<u8>)
    ensures
        spec_percent_decode(spec_escape_query(bs)) == bs,
    decreases bs.len(),
{
    if bs.len() > 0 {
        let b = bs[0];
        let rest = spec_escape_query(bs.drop_first());
        lemma_escape_query_round_trip_bytes(bs.drop_first());
        if is_query_plain(b) {
            let whole = seq![b as char] + rest;
            assert(whole[0] == b as char);
            assert((b as char) != '%');
            assert(whole.drop_first() =~= rest);
            assert(((whole[0] as u32) as u8) == b);
            assert(seq![b] + bs.drop_first() =~= bs);
        } else {
            let h1 = spec_hex_digit(b / 16);
            let h2 = spec_hex_digit(b % 16);
            lemma_hex_digit_value(b / 16);
            lemma_hex_digit_value(b % 16);
            let whole = seq!['%', h1, h2] + rest;
            assert(whole[0] == '%' && whole[1] == h1 && whole[2] == h2);
            assert(whole.len() >= 3);
            assert(whole.skip(3) =~= rest);
            assert(hex_char_value(h1) * 16 + hex_char_value(h2) == b) by {
                assert((b / 16) * 16 + (b % 16) == b) by (nonlinear_arith);
            }
            assert(seq![b] + bs.drop_first() =~= bs);
        }
    }
}

/// Round trip: percent-decoding the escaped form of a string gives back its
/// UTF-8 bytes, and those bytes decode to the original characters.
pub proof fn lemma_escape_query_round_trip(s: Seq<char>)
    ensures
        spec_percent_decode(spec_escape_query(encode_utf8(s))) == encode_utf8(s),
        decode_utf8(encode_utf8(s)) == s,
{
    lemma_escape_query_round_trip_bytes(encode_utf8(s));
    encode_utf8_decode_utf8(s);
}

} // verus!
