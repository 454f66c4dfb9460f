//! Generated in-program identifiers: a human-readable tag and an allocation
//! counter, folded into one name under a reserved prefix so that generated
//! names can collide neither with user identifiers nor with each other.

use vstd::prelude::*;
use vstd::string::StrSliceExecFns;
use crate::escape::{hex_digit_char, hex_digit_of};
use crate::strings::{
    append_char, append_decimal, append_str, dec_spec, digit_suffix_len, is_digit_char,
    lemma_append_cancel, lemma_dec_spec_digits, lemma_dec_spec_injective,
    lemma_digit_suffix_of_append,
};

verus! {

/// Letters and digits pass through the encoding unchanged.
pub open spec fn is_passthrough_char(c: char) -> bool {
    (48 <= c as u32 && c as u32 <= 57) || (65 <= c as u32 && c as u32 <= 90) || (97 <= c as u32
        && c as u32 <= 122)
}

/// The hexadecimal rendering of `n`, most significant digit first.
pub open spec fn hex_spec(n: nat) -> Seq<char>
    decreases n,
{
    if n < 16 {
        seq![hex_digit_char(n as int)]
    } else {
        hex_spec(n / 16).push(hex_digit_char((n % 16) as int))
    }
}

/// What one character contributes to an encoded tag: itself for letters and
/// digits, `_` for a space, and the character code in hexadecimal between
/// `$` signs for everything else.
pub open spec fn enc_char(c: char) -> Seq<char> {
    if is_passthrough_char(c) {
        seq![c]
    } else if c == ' ' {
        seq!['_']
    } else {
        seq!['$'] + hex_spec(c as u32 as nat) + seq!['$']
    }
}

/// The encoded form of a whole tag.
pub open spec fn encode_spec(s: Seq<char>) -> Seq<char>
    decreases s.len(),
{
    if s.len() == 0 {
        Seq::empty()
    } else {
        enc_char(s[0]) + encode_spec(s.drop_first())
    }
}

/// The reserved prefix under which every generated identifier lives.
pub open spec fn ident_prefix() -> Seq<char> {
    seq!['_', '_', 'T', 'U', 'R', 'B', 'O', 'P', 'A', 'C', 'K', '_', '_']
}

/// The encoding of the ` #` that stands between a tag and its counter.
pub open spec fn ident_sep() -> Seq<char> {
    seq!['_', '$', '2', '3', '$']
}

/// Everything of a mangled identifier that comes before the counter.
pub open spec fn mangle_head(tag: Seq<char>) -> Seq<char> {
    ident_prefix() + encode_spec(tag) + ident_sep()
}

/// The mangled identifier for a tag and an allocation counter: the encoding
/// of `{tag} #{n}` under the reserved prefix, closed by `__`.
pub open spec fn mangle_spec(tag: Seq<char>, n: nat) -> Seq<char> {
    mangle_head(tag) + dec_spec(n) + seq!['_', '_']
}

pub proof fn lemma_encode_append(a: Seq<char>, b: Seq<char>)
    ensures
        encode_spec(a + b) == encode_spec(a) + encode_spec(b),
    decreases a.len(),
{
    if a.len() == 0 {
        assert(a + b =~= b);
        assert(encode_spec(a) + encode_spec(b) =~= encode_spec(b));
    } else {
        assert((a + b)[0] == a[0]);
        assert((a + b).drop_first() =~= a.drop_first() + b);
        lemma_encode_append(a.drop_first(), b);
        assert(enc_char(a[0]) + (encode_spec(a.drop_first()) + encode_spec(b)) =~= (enc_char(a[0])
            + encode_spec(a.drop_first())) + encode_spec(b));
    }
}

pub proof fn lemma_encode_take_snoc(s: Seq<char>, i: int)
    requires
        0 <= i < s.len(),
    ensures
        encode_spec(s.take(i + 1)) == encode_spec(s.take(i)) + enc_char(s[i]),
{
    assert(s.take(i + 1) =~= s.take(i) + seq![s[i]]);
    lemma_encode_append(s.take(i), seq![s[i]]);
    assert(seq![s[i]].drop_first() =~= Seq::<char>::empty());
    assert(seq![s[i]].len() == 1);
    assert(seq![s[i]][0] == s[i]);
    assert(enc_char(s[i]) + Seq::<char>::empty() =~= enc_char(s[i]));
    assert(encode_spec(seq![s[i]]) == enc_char(seq![s[i]][0]) + encode_spec(
        seq![s[i]].drop_first(),
    ));
    assert(encode_spec(seq![s[i]]) =~= enc_char(s[i]));
}

/// A tag made only of letters, digits and spaces encodes to its own length.
pub proof fn lemma_encode_len_simple(s: Seq<char>)
    requires
        forall|k: int|
            0 <= k < s.len() ==> is_passthrough_char(#[trigger] s[k]) || s[k] == ' ',
    ensures
        encode_spec(s).len() == s.len(),
    decreases s.len(),
{
    if s.len() > 0 {
        assert(s.drop_first().len() == s.len() - 1);
        assert(forall|k: int|
            0 <= k < s.drop_first().len() ==> is_passthrough_char(#[trigger] s.drop_first()[k])
                || s.drop_first()[k] == ' ');
        lemma_encode_len_simple(s.drop_first());
    }
}

fn append_hex(s: &mut String, n: u32)
    ensures
        final(s)@ == old(s)@ + hex_spec(n as nat),
    decreases n,
{
    if n < 16 {
        append_char(s, hex_digit_of(n));
        assert(s@ =~= old(s)@ + hex_spec(n as nat));
    } else {
        append_hex(s, n / 16);
        append_char(s, hex_digit_of(n % 16));
        assert(s@ =~= old(s)@ + hex_spec(n as nat));
    }
}

fn append_encoded_char(out: &mut String, c: char)
    ensures
        final(out)@ == old(out)@ + enc_char(c),
{
    let code: u32 = c as u32;
    if (48 <= code && code <= 57) || (65 <= code && code <= 90) || (97 <= code && code <= 122) {
        append_char(out, c);
        assert(out@ =~= old(out)@ + enc_char(c));
    } else if c == ' ' {
        append_char(out, '_');
        assert(out@ =~= old(out)@ + enc_char(c));
    } else {
        append_char(out, '$');
        append_hex(out, code);
        append_char(out, '$');
        assert(out@ =~= old(out)@ + enc_char(c));
    }
}

/// The mangled identifier for `tag` and allocation counter `n`.
pub fn make_identifier(tag: &str, n: usize) -> (r: String)
    ensures
        r@ == mangle_spec(tag@, n as nat),
{
    let mut r = String::new();
    append_str(&mut r, "__TURBOPACK__");
    proof {
        reveal_strlit("__TURBOPACK__");
        assert(r@ =~= ident_prefix());
    }
    let len = tag.unicode_len();
    let mut k: usize = 0;
    while k < len
        invariant
            len == tag@.len(),
            k <= len,
            r@ == ident_prefix() + encode_spec(tag@.take(k as int)),
        decreases len - k,
    {
        let c = tag.get_char(k);
        append_encoded_char(&mut r, c);
        proof {
            lemma_encode_take_snoc(tag@, k as int);
            assert((ident_prefix() + encode_spec(tag@.take(k as int))) + enc_char(tag@[k as int])
                =~= ident_prefix() + (encode_spec(tag@.take(k as int)) + enc_char(tag@[k as int])));
        }
        k = k + 1;
    }
    proof {
        assert(tag@.take(len as int) =~= tag@);
    }
    append_str(&mut r, "_$23$");
    proof {
        reveal_strlit("_$23$");
        assert((ident_prefix() + encode_spec(tag@)) + "_$23$"@ =~= mangle_head(tag@));
    }
    append_decimal(&mut r, n);
    append_str(&mut r, "__");
    proof {
        reveal_strlit("__");
        assert(r@ =~= mangle_spec(tag@, n as nat));
    }
    r
}

/// The mangled head is never empty and always ends in a `$`, which is not a
/// digit: the counter's digits can be read back off the end of the name.
pub proof fn lemma_mangle_head_shape(tag: Seq<char>)
    ensures
        mangle_head(tag).len() > 0,
        mangle_head(tag).last() == '$',
        !is_digit_char(mangle_head(tag).last()),
{
    let h = mangle_head(tag);
    assert(h.len() == ident_prefix().len() + encode_spec(tag).len() + ident_sep().len());
    assert(h.last() == ident_sep().last());
}

/// Two identifiers mangled from different counters are different, whatever
/// their tags: the counter is recoverable as the maximal digit run before
/// the closing `__`.
pub proof fn lemma_mangle_counter_injective(t1: Seq<char>, t2: Seq<char>, i: nat, j: nat)
    requires
        mangle_spec(t1, i) == mangle_spec(t2, j),
    ensures
        i == j,
{
    let c1 = mangle_head(t1) + dec_spec(i);
    let c2 = mangle_head(t2) + dec_spec(j);
    lemma_dec_spec_digits(i);
    lemma_dec_spec_digits(j);
    lemma_append_cancel(c1, seq!['_', '_'], c2, seq!['_', '_']);
    lemma_mangle_head_shape(t1);
    lemma_mangle_head_shape(t2);
    lemma_digit_suffix_of_append(mangle_head(t1), dec_spec(i));
    lemma_digit_suffix_of_append(mangle_head(t2), dec_spec(j));
    assert(dec_spec(i).len() == dec_spec(j).len());
    lemma_append_cancel(mangle_head(t1), dec_spec(i), mangle_head(t2), dec_spec(j));
    lemma_dec_spec_injective(i, j);
}

/// Two identifiers mangled from the same counter but from tags whose
/// encodings differ in length are different.
pub proof fn lemma_mangle_tag_len_distinct(t1: Seq<char>, t2: Seq<char>, n: nat)
    requires
        encode_spec(t1).len() != encode_spec(t2).len(),
    ensures
        mangle_spec(t1, n) != mangle_spec(t2, n),
{
    assert(mangle_spec(t1, n).len() == ident_prefix().len() + encode_spec(t1).len()
        + ident_sep().len() + dec_spec(n).len() + 2);
    assert(mangle_spec(t2, n).len() == ident_prefix().len() + encode_spec(t2).len()
        + ident_sep().len() + dec_spec(n).len() + 2);
}

} // verus!
