//! JSON-style escaping of strings for embedding in the emitted program text:
//! a quoted form in which quote, backslash and control characters can never
//! break out of the surrounding literal.

use vstd::prelude::*;
use vstd::string::StrSliceExecFns;
use crate::strings::{append_char, append_str};

verus! {

/// The hexadecimal digit character for a value below sixteen, lower case.
pub open spec fn hex_digit_char(d: int) -> char {
    if d == 0 { '0' }
    else if d == 1 { '1' }
    else if d == 2 { '2' }
    else if d == 3 { '3' }
    else if d == 4 { '4' }
    else if d == 5 { '5' }
    else if d == 6 { '6' }
    else if d == 7 { '7' }
    else if d == 8 { '8' }
    else if d == 9 { '9' }
    else if d == 10 { 'a' }
    else if d == 11 { 'b' }
    else if d == 12 { 'c' }
    else if d == 13 { 'd' }
    else if d == 14 { 'e' }
    else { 'f' }
}

pub fn hex_digit_of(d: u32) -> (r: char)
    requires
        d < 16,
    ensures
        r == hex_digit_char(d as int),
{
    match d {
        0 => '0',
        1 => '1',
        2 => '2',
        3 => '3',
        4 => '4',
        5 => '5',
        6 => '6',
        7 => '7',
        8 => '8',
        9 => '9',
        10 => 'a',
        11 => 'b',
        12 => 'c',
        13 => 'd',
        14 => 'e',
        _ => 'f',
    }
}

/// What one character contributes inside a quoted literal: the named escapes
/// for quote, backslash and the common control characters, a `\u00..` escape
/// for the remaining control characters, and the character itself otherwise.
pub open spec fn esc_char(c: char) -> Seq<char> {
    if c == '"' { seq!['\\', '"'] }
    else if c == '\\' { seq!['\\', '\\'] }
    else if c == '\n' { seq!['\\', 'n'] }
    else if c == '\r' { seq!['\\', 'r'] }
    else if c == '\t' { seq!['\\', 't'] }
    else if c as u32 == 8 { seq!['\\', 'b'] }
    else if c as u32 == 12 { seq!['\\', 'f'] }
    else if (c as u32) < 32 {
        seq!['\\', 'u', '0', '0', hex_digit_char(c as u32 as int / 16), hex_digit_char(
            c as u32 as int % 16,
        )]
    } else {
        seq![c]
    }
}

/// The body of the quoted form: every character replaced by its escape.
pub open spec fn escape_spec(s: Seq<char>) -> Seq<char>
    decreases s.len(),
{
    if s.len() == 0 {
        Seq::empty()
    } else {
        esc_char(s[0]) + escape_spec(s.drop_first())
    }
}

/// The full quoted form of `s`, as the emitted program text carries it.
pub open spec fn js_string_spec(s: Seq<char>) -> Seq<char> {
    seq!['"'] + escape_spec(s) + seq!['"']
}

pub proof fn lemma_escape_append(a: Seq<char>, b: Seq<char>)
    ensures
        escape_spec(a + b) == escape_spec(a) + escape_spec(b),
    decreases a.len(),
{
    if a.len() == 0 {
        assert(a + b =~= b);
        assert(escape_spec(a) + escape_spec(b) =~= escape_spec(b));
    } else {
        assert((a + b)[0] == a[0]);
        assert((a + b).drop_first() =~= a.drop_first() + b);
        lemma_escape_append(a.drop_first(), b);
        assert(esc_char(a[0]) + (escape_spec(a.drop_first()) + escape_spec(b)) =~= (esc_char(a[0])
            + escape_spec(a.drop_first())) + escape_spec(b));
    }
}

pub proof fn lemma_escape_take_snoc(s: Seq<char>, i: int)
    requires
        0 <= i < s.len(),
    ensures
        escape_spec(s.take(i + 1)) == escape_spec(s.take(i)) + esc_char(s[i]),
{
    assert(s.take(i + 1) =~= s.take(i) + seq![s[i]]);
    lemma_escape_append(s.take(i), seq![s[i]]);
    assert(seq![s[i]].drop_first() =~= Seq::<char>::empty());
    assert(seq![s[i]][0] == s[i]);
    assert(esc_char(s[i]) + Seq::<char>::empty() =~= esc_char(s[i]));
    assert(seq![s[i]].len() == 1);
    assert(escape_spec(seq![s[i]]) == esc_char(seq![s[i]][0]) + escape_spec(
        seq![s[i]].drop_first(),
    ));
    assert(escape_spec(seq![s[i]]) =~= esc_char(s[i]));
}

/// Appends the escape of one character.
fn append_escaped_char(out: &mut String, c: char)
    ensures
        final(out)@ == old(out)@ + esc_char(c),
{
    let code: u32 = c as u32;
    if c == '"' {
        append_str(out, "\\\"");
        proof {
            reveal_strlit("\\\"");
            assert(out@ =~= old(out)@ + esc_char(c));
        }
    } else if c == '\\' {
        append_str(out, "\\\\");
        proof {
            reveal_strlit("\\\\");
            assert(out@ =~= old(out)@ + esc_char(c));
        }
    } else if c == '\n' {
        append_str(out, "\\n");
        proof {
            reveal_strlit("\\n");
            assert(out@ =~= old(out)@ + esc_char(c));
        }
    } else if c == '\r' {
        append_str(out, "\\r");
        proof {
            reveal_strlit("\\r");
            assert(out@ =~= old(out)@ + esc_char(c));
        }
    } else if c == '\t' {
        append_str(out, "\\t");
        proof {
            reveal_strlit("\\t");
            assert(out@ =~= old(out)@ + esc_char(c));
        }
    } else if code == 8 {
        append_str(out, "\\b");
        proof {
            reveal_strlit("\\b");
            assert(out@ =~= old(out)@ + esc_char(c));
        }
    } else if code == 12 {
        append_str(out, "\\f");
        proof {
            reveal_strlit("\\f");
            assert(out@ =~= old(out)@ + esc_char(c));
        }
    } else if code < 32 {
        append_str(out, "\\u00");
        append_char(out, hex_digit_of(code / 16));
        append_char(out, hex_digit_of(code % 16));
        proof {
            reveal_strlit("\\u00");
            assert(out@ =~= old(out)@ + esc_char(c));
        }
    } else {
        append_char(out, c);
        assert(out@ =~= old(out)@ + esc_char(c));
    }
}

/// Appends the quoted form of `s`.
pub fn append_js_string(out: &mut String, s: &str)
    ensures
        final(out)@ == old(out)@ + js_string_spec(s@),
{
    let mut r = String::new();
    append_char(&mut r, '"');
    let n = s.unicode_len();
    let mut k: usize = 0;
    while k < n
        invariant
            n == s@.len(),
            k <= n,
            r@ == seq!['"'] + escape_spec(s@.take(k as int)),
        decreases n - k,
    {
        let c = s.get_char(k);
        append_escaped_char(&mut r, c);
        proof {
            lemma_escape_take_snoc(s@, k as int);
            assert((seq!['"'] + escape_spec(s@.take(k as int))) + esc_char(s@[k as int]) =~= seq![
                '"',
            ] + (escape_spec(s@.take(k as int)) + esc_char(s@[k as int])));
        }
        k = k + 1;
    }
    append_char(&mut r, '"');
    proof {
        assert(s@.take(n as int) =~= s@);
        assert(r@ =~= js_string_spec(s@));
    }
    append_str(out, r.as_str());
}

} // verus!
