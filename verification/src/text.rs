//! Decimal rendering of integers, for the rendered forms of identities,
//! postings and violations.
//!
//! The rendered forms carry integer identifiers and integer amounts only, so
//! the one thing needed beyond appending literal text is the decimal spelling
//! of an integer, which is stated here as a spec function and produced by a
//! verified routine.

use vstd::prelude::*;
use vstd::string::*;

verus! {

/// The character spelling the decimal digit `d`.
pub open spec fn digit_char(d: int) -> char
    recommends
        0 <= d < 10,
{
    (d + 48) as char
}

/// The decimal spelling of a natural number: no sign, no leading zero.
pub open spec fn digits(n: nat) -> Seq<char>
    decreases n,
{
    if n < 10 {
        seq![digit_char(n as int)]
    } else {
        digits(n / 10) + seq![digit_char((n % 10) as int)]
    }
}

/// The decimal spelling of an integer: a minus sign before a negative one.
pub open spec fn decimal(i: int) -> Seq<char> {
    if i < 0 {
        seq!['-'] + digits((-i) as nat)
    } else {
        digits(i as nat)
    }
}

/// Appends `c` to `s`, through `String::push`.
///
/// The standard library documents `push` as appending the given character to
/// the end of the string; that is all this states.
#[verifier::external_body]
pub(crate) fn push_char(s: &mut String, c: char)
    ensures
        final(s)@ == old(s)@.push(c),
{
    s.push(c);
}

/// Appends the decimal spelling of `n`.
pub fn push_unsigned(s: &mut String, n: u128)
    ensures
        final(s)@ == old(s)@ + digits(n as nat),
    decreases n,
{
    let ghost start = s@;
    if n >= 10 {
        push_unsigned(s, n / 10);
    }
    let d = (n % 10) as u8;
    let c = (48u8 + d) as char;
    assert(c == digit_char(d as int));
    push_char(s, c);
    proof {
        if n >= 10 {
            assert(s@ == start + digits((n / 10) as nat) + seq![digit_char((n % 10) as int)]);
            assert(s@ == start + digits(n as nat));
        } else {
            assert(s@ == start + digits(n as nat));
        }
    }
}

/// Appends the decimal spelling of `v`, with a minus sign when negative.
pub fn push_signed(s: &mut String, v: i128)
    requires
        v > i128::MIN,
    ensures
        final(s)@ == old(s)@ + decimal(v as int),
{
    if v < 0 {
        push_char(s, '-');
        push_unsigned(s, (-v) as u128);
        assert(s@ == old(s)@ + decimal(v as int));
    } else {
        push_unsigned(s, v as u128);
    }
}

/// Appends literal text.
pub fn push_text(s: &mut String, t: &str)
    ensures
        final(s)@ == old(s)@ + t@,
{
    s.append(t);
}

/// A fresh, empty string.
pub fn empty_text() -> (s: String)
    ensures
        s@ == Seq::<char>::empty(),
{
    String::new()
}

} // verus!
