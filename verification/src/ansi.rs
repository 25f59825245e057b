use vstd::prelude::*;

use crate::text::push_char;

verus! {

/// The scanner state of the control-sequence stripper.
#[derive(Clone, Copy, PartialEq, Eq, Structural)]
pub enum ScanState {
    /// Ordinary text: characters are copied to the output.
    Normal,
    /// The escape introducer was just seen.
    Escape,
    /// Inside a control sequence introduced by the escape introducer and `[`.
    Csi,
}

/// The escape introducer character (0x1B).
pub open spec fn is_escape_introducer(c: char) -> bool {
    c as u32 == 0x1B
}

/// The final byte of a control sequence lies in 0x40 ..= 0x7F.
pub open spec fn is_sequence_final(c: char) -> bool {
    0x40 <= c as u32 && c as u32 <= 0x7F
}

/// What remains of `s` once the scanner, started in state `st`, has consumed
/// it: characters seen in the normal state are kept, everything that belongs
/// to an escape sequence is dropped.
pub open spec fn strip_from(s: Seq<char>, st: ScanState) -> Seq<char>
    decreases s.len(),
{
    if s.len() == 0 {
        Seq::empty()
    } else {
        let c = s[0];
        let rest = s.drop_first();
        match st {
            ScanState::Normal => if is_escape_introducer(c) {
                strip_from(rest, ScanState::Escape)
            } else {
                seq![c] + strip_from(rest, ScanState::Normal)
            },
            ScanState::Escape => if c == '[' {
                strip_from(rest, ScanState::Csi)
            } else {
                strip_from(rest, ScanState::Normal)
            },
            ScanState::Csi => if is_sequence_final(c) {
                strip_from(rest, ScanState::Normal)
            } else {
                strip_from(rest, ScanState::Csi)
            },
        }
    }
}

/// The stripped form of a string: a scan started in the normal state.
pub open spec fn spec_strip_ansi(s: Seq<char>) -> Seq<char> {
    strip_from(s, ScanState::Normal)
}

/// Strip ANSI/VT terminal escape sequences from a string.
pub fn strip_ansi(s: &str) -> (out: String)
    ensures
        out@ == spec_strip_ansi(s@),
{
    let n = s.unicode_len();
    let mut out = String::new();
    let mut state = ScanState::Normal;
    let mut i: usize = 0;
    proof {
        assert(s@.skip(0) =~= s@);
        assert(out@ + strip_from(s@, ScanState::Normal) =~= strip_from(s@, ScanState::Normal));
    }
    while i < n
        invariant
            i <= n,
            n == s@.len(),
            spec_strip_ansi(s@) == out@ + strip_from(s@.skip(i as int), state),
        decreases n - i,
    {
        let c = s.get_char(i);
        proof {
            assert(s@.skip(i as int).len() > 0);
            assert(s@.skip(i as int)[0] == c);
            assert(s@.skip(i as int).drop_first() =~= s@.skip(i + 1));
        }
        match state {
            ScanState::Normal => {
                if (c as u32) == 0x1B {
                    state = ScanState::Escape;
                } else {
                    let ghost pre = out@;
                    push_char(&mut out, c);
                    proof {
                        assert(pre + (seq![c] + strip_from(s@.skip(i + 1), ScanState::Normal))
                            =~= out@ + strip_from(s@.skip(i + 1), ScanState::Normal));
                    }
                }
            }
            ScanState::Escape => {
                if c == '[' {
                    state = ScanState::Csi;
                } else {
                    state = ScanState::Normal;
                }
            }
            ScanState::Csi => {
                if (c as u32) >= 0x40 && (c as u32) <= 0x7F {
                    state = ScanState::Normal;
                }
            }
        }
        i = i + 1;
    }
    proof {
        assert(s@.skip(n as int) =~= Seq::<char>::empty());
    }
    out
}

/// Nothing the stripper emits is an escape introducer.
pub proof fn lemma_strip_no_escape_introducer(s: Seq<char>, st: ScanState)
    ensures
        forall|i: int|
            0 <= i < strip_from(s, st).len() ==> !is_escape_introducer(
                #[trigger] strip_from(s, st)[i],
            ),
    decreases s.len(),
{
    if s.len() > 0 {
        let c = s[0];
        let rest = s.drop_first();
        lemma_strip_no_escape_introducer(rest, ScanState::Normal);
        lemma_strip_no_escape_introducer(rest, ScanState::Escape);
        lemma_strip_no_escape_introducer(rest, ScanState::Csi);
        let w = strip_from(s, st);
        assert forall|i: int| 0 <= i < w.len() implies !is_escape_introducer(
            #[trigger] w[i],
        ) by {
            match st {
                ScanState::Normal => {
                    if is_escape_introducer(c) {
                        assert(w[i] == strip_from(rest, ScanState::Escape)[i]);
                    } else {
                        assert(w == seq![c] + strip_from(rest, ScanState::Normal));
                        if i == 0 {
                            assert(w[0] == c);
                        } else {
                            assert(w[i] == strip_from(rest, ScanState::Normal)[i - 1]);
                        }
                    }
                }
                ScanState::Escape => {
                    if c == '[' {
                        assert(w[i] == strip_from(rest, ScanState::Csi)[i]);
                    } else {
                        assert(w[i] == strip_from(rest, ScanState::Normal)[i]);
                    }
                }
                ScanState::Csi => {
                    if is_sequence_final(c) {
                        assert(w[i] == strip_from(rest, ScanState::Normal)[i]);
                    } else {
                        assert(w[i] == strip_from(rest, ScanState::Csi)[i]);
                    }
                }
            }
        }
    }
}

/// A string with no escape introducer passes through the stripper unchanged.
pub proof fn lemma_strip_identity(s: Seq<char>)
    requires
        forall|i: int| 0 <= i < s.len() ==> !is_escape_introducer(#[trigger] s[i]),
    ensures
        spec_strip_ansi(s) == s,
    decreases s.len(),
{
    if s.len() > 0 {
        assert(forall|i: int|
            0 <= i < s.drop_first().len() ==> !is_escape_introducer(
                #[trigger] s.drop_first()[i],
            ));
        lemma_strip_identity(s.drop_first());
        assert(seq![s[0]] + s.drop_first() =~= s);
    }
}

proof fn lemma_strip_prefix_plain(x: Seq<char>, y: Seq<char>)
    requires
        forall|i: int| 0 <= i < x.len() ==> !is_escape_introducer(#[trigger] x[i]),
    ensures
        strip_from(x + y, ScanState::Normal) == x + strip_from(y, ScanState::Normal),
    decreases x.len(),
{
    if x.len() == 0 {
        assert(x + y =~= y);
        assert(x + strip_from(y, ScanState::Normal) =~= strip_from(y, ScanState::Normal));
    } else {
        let c = x[0];
        assert((x + y)[0] == c);
        assert((x + y).len() > 0);
        assert((x + y).drop_first() =~= x.drop_first() + y);
        assert(forall|i: int|
            0 <= i < x.drop_first().len() ==> !is_escape_introducer(
                #[trigger] x.drop_first()[i],
            ));
        lemma_strip_prefix_plain(x.drop_first(), y);
        assert(seq![c] + (x.drop_first() + strip_from(y, ScanState::Normal)) =~= x + strip_from(
            y,
            ScanState::Normal,
        ));
    }
}

proof fn lemma_strip_csi_consumes(params: Seq<char>, rest: Seq<char>)
    requires
        forall|i: int| 0 <= i < params.len() ==> !is_sequence_final(#[trigger] params[i]),
    ensures
        strip_from(params + rest, ScanState::Csi) == strip_from(rest, ScanState::Csi),
    decreases params.len(),
{
    if params.len() == 0 {
        assert(params + rest =~= rest);
    } else {
        assert((params + rest)[0] == params[0]);
        assert((params + rest).drop_first() =~= params.drop_first() + rest);
        assert(forall|i: int|
            0 <= i < params.drop_first().len() ==> !is_sequence_final(
                #[trigger] params.drop_first()[i],
            ));
        lemma_strip_csi_consumes(params.drop_first(), rest);
    }
}

/// A whole control sequence — the escape introducer, `[`, any run of
/// non-final characters, and its final byte — is removed, and the text around
/// it passes through untouched.
pub proof fn lemma_strip_removes_csi_sequence(
    before: Seq<char>,
    params: Seq<char>,
    fin: char,
    after: Seq<char>,
)
    requires
        forall|i: int| 0 <= i < before.len() ==> !is_escape_introducer(#[trigger] before[i]),
        forall|i: int| 0 <= i < params.len() ==> !is_sequence_final(#[trigger] params[i]),
        is_sequence_final(fin),
    ensures
        spec_strip_ansi(before + seq!['\x1B', '['] + params + seq![fin] + after) == before
            + spec_strip_ansi(after),
{
    let tail = seq!['\x1B', '['] + (params + (seq![fin] + after));
    assert(before + seq!['\x1B', '['] + params + seq![fin] + after =~= before + tail);
    lemma_strip_prefix_plain(before, tail);
    assert(tail[0] == '\x1B' && is_escape_introducer('\x1B'));
    assert(tail.drop_first() =~= seq!['['] + (params + (seq![fin] + after)));
    let at_bracket = tail.drop_first();
    assert(at_bracket[0] == '[');
    assert(strip_from(tail, ScanState::Normal) == strip_from(at_bracket, ScanState::Escape));
    assert(at_bracket.drop_first() =~= params + (seq![fin] + after));
    lemma_strip_csi_consumes(params, seq![fin] + after);
    assert((seq![fin] + after)[0] == fin);
    assert((seq![fin] + after).drop_first() =~= after);
    assert(strip_from(seq![fin] + after, ScanState::Csi) == strip_from(
        after,
        ScanState::Normal,
    ));
}

/// Stripping is idempotent: a second pass changes nothing.
pub proof fn lemma_strip_idempotent(s: Seq<char>)
    ensures
        spec_strip_ansi(spec_strip_ansi(s)) == spec_strip_ansi(s),
{
    lemma_strip_no_escape_introducer(s, ScanState::Normal);
    lemma_strip_identity(spec_strip_ansi(s));
}

} // verus!
