//! JSON string escaping, used to embed caller-supplied text in the
//! handshake request without breaking the one-value-per-line framing.

use vstd::prelude::*;
use vstd::string::StrSliceExecFns;
use vstd::string::StringExecFns;

verus! {

/// The lowercase hexadecimal digit for a value below sixteen.
pub open spec fn hex_digit(n: int) -> char {
    if n == 0 {
        '0'
    } else if n == 1 {
        '1'
    } else if n == 2 {
        '2'
    } else if n == 3 {
        '3'
    } else if n == 4 {
        '4'
    } else if n == 5 {
        '5'
    } else if n == 6 {
        '6'
    } else if n == 7 {
        '7'
    } else if n == 8 {
        '8'
    } else if n == 9 {
        '9'
    } else if n == 10 {
        'a'
    } else if n == 11 {
        'b'
    } else if n == 12 {
        'c'
    } else if n == 13 {
        'd'
    } else if n == 14 {
        'e'
    } else {
        'f'
    }
}

/// How one character appears inside a JSON string literal: quotes and
/// backslashes are escaped, control characters become a \u00XX sequence,
/// and everything else stands as itself.
pub open spec fn escape_char(c: char) -> Seq<char> {
    if c == '"' {
        seq!['\\', '"']
    } else if c == '\\' {
        seq!['\\', '\\']
    } else if (c as u32) < 32 {
        seq!['\\', 'u', '0', '0', hex_digit(c as u32 as int / 16), hex_digit(c as u32 as int % 16)]
    } else {
        seq![c]
    }
}

/// The body of a JSON string literal carrying the text `s`.
pub open spec fn escape_text(s: Seq<char>) -> Seq<char>
    decreases s.len(),
{
    if s.len() == 0 {
        Seq::empty()
    } else {
        escape_text(s.drop_last()) + escape_char(s.last())
    }
}

fn append_hex_digit(out: &mut String, d: u32)
    requires
        d < 16,
    ensures
        final(out)@ == old(out)@ + seq![hex_digit(d as int)],
{
    if d == 0 {
        out.append("0");
        proof { reveal_strlit("0"); assert(old(out)@ + "0"@ =~= old(out)@ + seq![hex_digit(d as int)]); }
    } else if d == 1 {
        out.append("1");
        proof { reveal_strlit("1"); assert(old(out)@ + "1"@ =~= old(out)@ + seq![hex_digit(d as int)]); }
    } else if d == 2 {
        out.append("2");
        proof { reveal_strlit("2"); assert(old(out)@ + "2"@ =~= old(out)@ + seq![hex_digit(d as int)]); }
    } else if d == 3 {
        out.append("3");
        proof { reveal_strlit("3"); assert(old(out)@ + "3"@ =~= old(out)@ + seq![hex_digit(d as int)]); }
    } else if d == 4 {
        out.append("4");
        proof { reveal_strlit("4"); assert(old(out)@ + "4"@ =~= old(out)@ + seq![hex_digit(d as int)]); }
    } else if d == 5 {
        out.append("5");
        proof { reveal_strlit("5"); assert(old(out)@ + "5"@ =~= old(out)@ + seq![hex_digit(d as int)]); }
    } else if d == 6 {
        out.append("6");
        proof { reveal_strlit("6"); assert(old(out)@ + "6"@ =~= old(out)@ + seq![hex_digit(d as int)]); }
    } else if d == 7 {
        out.append("7");
        proof { reveal_strlit("7"); assert(old(out)@ + "7"@ =~= old(out)@ + seq![hex_digit(d as int)]); }
    } else if d == 8 {
        out.append("8");
        proof { reveal_strlit("8"); assert(old(out)@ + "8"@ =~= old(out)@ + seq![hex_digit(d as int)]); }
    } else if d == 9 {
        out.append("9");
        proof { reveal_strlit("9"); assert(old(out)@ + "9"@ =~= old(out)@ + seq![hex_digit(d as int)]); }
    } else if d == 10 {
        out.append("a");
        proof { reveal_strlit("a"); assert(old(out)@ + "a"@ =~= old(out)@ + seq![hex_digit(d as int)]); }
    } else if d == 11 {
        out.append("b");
        proof { reveal_strlit("b"); assert(old(out)@ + "b"@ =~= old(out)@ + seq![hex_digit(d as int)]); }
    } else if d == 12 {
        out.append("c");
        proof { reveal_strlit("c"); assert(old(out)@ + "c"@ =~= old(out)@ + seq![hex_digit(d as int)]); }
    } else if d == 13 {
        out.append("d");
        proof { reveal_strlit("d"); assert(old(out)@ + "d"@ =~= old(out)@ + seq![hex_digit(d as int)]); }
    } else if d == 14 {
        out.append("e");
        proof { reveal_strlit("e"); assert(old(out)@ + "e"@ =~= old(out)@ + seq![hex_digit(d as int)]); }
    } else {
        out.append("f");
        proof { reveal_strlit("f"); assert(old(out)@ + "f"@ =~= old(out)@ + seq![hex_digit(d as int)]); }
    }
}

/// Whatever the input, the escaped text holds no control character: the
/// characters that could break the one-value-per-line framing (or the
/// string literal itself) leave only printable escape sequences behind.
pub proof fn lemma_escape_text_no_control(s: Seq<char>)
    ensures
        forall|i: int| 0 <= i < escape_text(s).len() ==> (#[trigger] escape_text(s)[i]) as u32
            >= 32,
    decreases s.len(),
{
    if s.len() > 0 {
        lemma_escape_text_no_control(s.drop_last());
        let c = s.last();
        assert forall|k: int| 0 <= k < escape_char(c).len() implies (#[trigger] escape_char(
            c,
        )[k]) as u32 >= 32 by {
            let e = escape_char(c);
            if c == '"' {
                assert(e[0] == '\\' && e[1] == '"');
            } else if c == '\\' {
                assert(e[0] == '\\' && e[1] == '\\');
            } else if (c as u32) < 32 {
                assert(e[0] == '\\' && e[1] == 'u' && e[2] == '0' && e[3] == '0');
                assert(e[4] == hex_digit(c as u32 as int / 16));
                assert(e[5] == hex_digit(c as u32 as int % 16));
                assert(forall|n: int| (#[trigger] hex_digit(n)) as u32 >= 32);
            } else {
                assert(e[0] == c);
            }
        }
        assert forall|i: int| 0 <= i < escape_text(s).len() implies (#[trigger] escape_text(
            s,
        )[i]) as u32 >= 32 by {
            let a = escape_text(s.drop_last());
            let e = escape_char(c);
            assert(escape_text(s) == a + e);
            if i < a.len() {
                assert(escape_text(s)[i] == a[i]);
            } else {
                assert(escape_text(s)[i] == e[i - a.len()]);
            }
        }
    }
}

/// Escapes `s` for inclusion between the quotes of a JSON string literal.
pub fn json_escape(s: &str) -> (r: String)
    ensures
        r@ == escape_text(s@),
{
    let n = s.unicode_len();
    let mut out = String::new();
    let mut i: usize = 0;
    while i < n
        invariant
            n == s@.len(),
            0 <= i <= n,
            out@ == escape_text(s@.take(i as int)),
        decreases n - i,
    {
        let c = s.get_char(i);
        if c == '"' {
            out.append("\\\"");
            proof { reveal_strlit("\\\""); assert("\\\""@ =~= escape_char(c)); }
        } else if c == '\\' {
            out.append("\\\\");
            proof { reveal_strlit("\\\\"); assert("\\\\"@ =~= escape_char(c)); }
        } else if (c as u32) < 32 {
            out.append("\\u00");
            append_hex_digit(&mut out, (c as u32) / 16);
            append_hex_digit(&mut out, (c as u32) % 16);
            proof {
                reveal_strlit("\\u00");
                assert("\\u00"@ + seq![hex_digit(c as u32 as int / 16)] + seq![
                    hex_digit(c as u32 as int % 16),
                ] =~= escape_char(c));
            }
        } else {
            let piece = s.substring_char(i, i + 1);
            out.append(piece);
            proof { assert(s@.subrange(i as int, i as int + 1) =~= escape_char(c)); }
        }
        proof {
            assert(s@.take(i as int + 1).drop_last() =~= s@.take(i as int));
            assert(s@.take(i as int + 1).last() == c);
        }
        i += 1;
    }
    proof { assert(s@.take(n as int) =~= s@); }
    out
}

} // verus!
