//! Verified string building: appending, decimal rendering of counters, and
//! the facts about decimal digit runs that the identifier-uniqueness proofs
//! rest on.

use vstd::prelude::*;

verus! {

/// Relies on String::push_str: appends the string slice onto the end.
#[verifier::external_body]
pub(crate) fn append_str(s: &mut String, t: &str)
    ensures
        final(s)@ == old(s)@ + t@,
{
    s.push_str(t)
}

/// Relies on String::push: appends the character onto the end.
#[verifier::external_body]
pub(crate) fn append_char(s: &mut String, c: char)
    ensures
        final(s)@ == old(s)@.push(c),
{
    s.push(c)
}

/// The characters '0' through '9'.
pub open spec fn is_digit_char(c: char) -> bool {
    48 <= c as u32 && c as u32 <= 57
}

/// The decimal digit character for a value below ten.
pub open spec fn digit_char(d: int) -> char {
    if d == 0 { '0' }
    else if d == 1 { '1' }
    else if d == 2 { '2' }
    else if d == 3 { '3' }
    else if d == 4 { '4' }
    else if d == 5 { '5' }
    else if d == 6 { '6' }
    else if d == 7 { '7' }
    else if d == 8 { '8' }
    else { '9' }
}

/// The decimal rendering of `n`, most significant digit first, no sign and
/// no leading zero except for `n == 0` itself.
pub open spec fn dec_spec(n: nat) -> Seq<char>
    decreases n,
{
    if n < 10 {
        seq![digit_char(n as int)]
    } else {
        dec_spec(n / 10).push(digit_char((n % 10) as int))
    }
}

pub fn digit_char_of(d: usize) -> (r: char)
    requires
        d < 10,
    ensures
        r == digit_char(d as int),
{
    match d {
        0 => '0',
        1 => '1',
        2 => '2',
        3 => '3',
        4 => '4',
        5 => '5',
        6 => '6',
        7 => '7',
        8 => '8',
        _ => '9',
    }
}

/// Appends the decimal rendering of `n`.
pub fn append_decimal(s: &mut String, n: usize)
    ensures
        final(s)@ == old(s)@ + dec_spec(n as nat),
    decreases n,
{
    if n < 10 {
        append_char(s, digit_char_of(n));
        assert(s@ =~= old(s)@ + dec_spec(n as nat));
    } else {
        append_decimal(s, n / 10);
        append_char(s, digit_char_of(n % 10));
        assert(s@ =~= old(s)@ + dec_spec(n as nat));
    }
}

pub proof fn lemma_dec_spec_digits(n: nat)
    ensures
        dec_spec(n).len() >= 1,
        forall|k: int| 0 <= k < dec_spec(n).len() ==> is_digit_char(#[trigger] dec_spec(n)[k]),
    decreases n,
{
    if n >= 10 {
        lemma_dec_spec_digits(n / 10);
    }
}

/// Two distinct numbers have distinct decimal renderings.
pub proof fn lemma_dec_spec_injective(a: nat, b: nat)
    requires
        dec_spec(a) == dec_spec(b),
    ensures
        a == b,
    decreases a + b,
{
    lemma_dec_spec_digits(a);
    lemma_dec_spec_digits(b);
    if a < 10 && b < 10 {
        assert(seq![digit_char(a as int)][0] == digit_char(a as int));
        assert(seq![digit_char(b as int)][0] == digit_char(b as int));
        assert(dec_spec(a)[0] == dec_spec(b)[0]);
    } else if a < 10 && b >= 10 {
        lemma_dec_spec_digits(b / 10);
        assert(dec_spec(b).len() >= 2);
    } else if a >= 10 && b < 10 {
        lemma_dec_spec_digits(a / 10);
        assert(dec_spec(a).len() >= 2);
    } else {
        let da = dec_spec(a / 10);
        let db = dec_spec(b / 10);
        assert(da.push(digit_char((a % 10) as int)).last() == digit_char((a % 10) as int));
        assert(db.push(digit_char((b % 10) as int)).last() == digit_char((b % 10) as int));
        assert(a % 10 == b % 10);
        assert(da.push(digit_char((a % 10) as int)).drop_last() =~= da);
        assert(db.push(digit_char((b % 10) as int)).drop_last() =~= db);
        assert(da == db);
        lemma_dec_spec_injective(a / 10, b / 10);
        vstd::arithmetic::div_mod::lemma_fundamental_div_mod(a as int, 10);
        vstd::arithmetic::div_mod::lemma_fundamental_div_mod(b as int, 10);
    }
}

/// The length of the maximal run of digit characters at the end of `s`.
pub open spec fn digit_suffix_len(s: Seq<char>) -> nat
    decreases s.len(),
{
    if s.len() == 0 {
        0
    } else if is_digit_char(s.last()) {
        1 + digit_suffix_len(s.drop_last())
    } else {
        0
    }
}

/// Appending an all-digit run after a sequence that ends in a non-digit
/// makes that run exactly the digit suffix.
pub proof fn lemma_digit_suffix_of_append(a: Seq<char>, d: Seq<char>)
    requires
        a.len() > 0,
        !is_digit_char(a.last()),
        forall|k: int| 0 <= k < d.len() ==> is_digit_char(#[trigger] d[k]),
    ensures
        digit_suffix_len(a + d) == d.len(),
    decreases d.len(),
{
    if d.len() == 0 {
        assert(a + d =~= a);
    } else {
        assert((a + d).last() == d.last());
        assert((a + d).drop_last() =~= a + d.drop_last());
        lemma_digit_suffix_of_append(a, d.drop_last());
    }
}

/// Concatenations with a common right part and equal total lengths have
/// equal left parts, and vice versa.
pub proof fn lemma_append_cancel(a: Seq<char>, b: Seq<char>, c: Seq<char>, d: Seq<char>)
    requires
        a + b == c + d,
        b.len() == d.len(),
    ensures
        a == c,
        b == d,
{
    assert((a + b).len() == a.len() + b.len());
    assert((c + d).len() == c.len() + d.len());
    assert(a.len() == c.len());
    assert forall|k: int| 0 <= k < a.len() implies a[k] == c[k] by {
        assert((a + b)[k] == a[k]);
        assert((c + d)[k] == c[k]);
    }
    assert forall|k: int| 0 <= k < b.len() implies b[k] == d[k] by {
        assert((a + b)[a.len() + k] == b[k]);
        assert((c + d)[c.len() + k] == d[k]);
    }
    assert(a =~= c);
    assert(b =~= d);
}

} // verus!
