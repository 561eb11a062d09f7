//! Text helpers over `String` and `&str`, specified on character sequences, and
//! the case conversion of names.

use vstd::prelude::*;

verus! {

/// Relies on `String::push`: appends one character at the end.
#[verifier::external_body]
pub(crate) fn push_char(s: &mut String, c: char)
    ensures
        final(s)@ == old(s)@.push(c),
{
    s.push(c)
}

/// Appends the characters of `t` to `s`.
pub fn push_str(s: &mut String, t: &str)
    ensures
        final(s)@ == old(s)@ + t@,
{
    s.append(t);
}

/// The characters of `s`, in order.
pub fn chars_of(s: &str) -> (r: Vec<char>)
    ensures
        r@ == s@,
{
    let mut r: Vec<char> = Vec::new();
    for c in it: s.chars()
        invariant
            r@ == it.seq().take(it.index() as int),
            it.seq() == s@,
    {
        r.push(c);
    }
    r
}

} // verus!

verus! {

/// The characters `cs[from..to]` as a string.
pub fn string_of(cs: &Vec<char>, from: usize, to: usize) -> (r: String)
    requires
        from <= to <= cs.len(),
    ensures
        r@ == cs@.subrange(from as int, to as int),
{
    let mut r = String::new();
    let mut k: usize = from;
    while k < to
        invariant
            from <= k <= to <= cs.len(),
            r@ == cs@.subrange(from as int, k as int),
        decreases to - k,
    {
        push_char(&mut r, cs[k]);
        assert(cs@.subrange(from as int, k + 1) =~= cs@.subrange(from as int, k as int).push(cs@[k as int]));
        k = k + 1;
    }
    r
}

} // verus!

verus! {

/// Whether a character has the Unicode `Uppercase` property.
pub uninterp spec fn upper_char(c: char) -> bool;

/// Relies on `char::is_uppercase`: true when the character has the Unicode
/// `Uppercase` property; among ASCII characters exactly `A` to `Z` have it.
#[verifier::external_body]
pub(crate) fn is_upper(c: char) -> (r: bool)
    ensures
        r == upper_char(c),
        (c as u32) < 128 ==> (r <==> ('A' <= c && c <= 'Z')),
{
    c.is_uppercase()
}

/// The ASCII upper-case form of a character; others stay.
pub open spec fn ascii_upper(c: char) -> char {
    if 'a' <= c && c <= 'z' {
        ((c as u32) - 32) as char
    } else {
        c
    }
}

/// The ASCII lower-case form of a character; others stay.
pub open spec fn ascii_lower(c: char) -> char {
    if 'A' <= c && c <= 'Z' {
        ((c as u32) + 32) as char
    } else {
        c
    }
}

/// Relies on `char::to_ascii_uppercase`: `a` to `z` become `A` to `Z`, others stay.
#[verifier::external_body]
pub(crate) fn to_upper_ascii(c: char) -> (r: char)
    ensures
        r == ascii_upper(c),
{
    c.to_ascii_uppercase()
}

/// Relies on `char::to_ascii_lowercase`: `A` to `Z` become `a` to `z`, others stay.
#[verifier::external_body]
fn to_lower_ascii(c: char) -> (r: char)
    ensures
        r == ascii_lower(c),
{
    c.to_ascii_lowercase()
}

/// `s` with `_` before each upper-case character but the first, and each
/// character mapped to ASCII upper case (`upper`) or lower case.
pub open spec fn split_case(s: Seq<char>, upper: bool) -> Seq<char>
    decreases s.len(),
{
    if s.len() == 0 {
        Seq::empty()
    } else {
        let c = s.last();
        let mapped = if upper {
            ascii_upper(c)
        } else {
            ascii_lower(c)
        };
        split_case(s.drop_last(), upper) + if upper_char(c) && s.len() > 1 {
            seq!['_', mapped]
        } else {
            seq![mapped]
        }
    }
}

fn case_words(s: &str, upper: bool) -> (r: String)
    ensures
        r@ == split_case(s@, upper),
{
    let cs = chars_of(s);
    let mut r = String::new();
    let mut i: usize = 0;
    while i < cs.len()
        invariant
            cs@ == s@,
            i <= cs.len(),
            r@ == split_case(cs@.take(i as int), upper),
        decreases cs.len() - i,
    {
        let c = cs[i];
        proof {
            assert(cs@.take(i + 1).drop_last() =~= cs@.take(i as int));
        }
        if is_upper(c) && i > 0 {
            push_char(&mut r, '_');
        }
        let m = if upper {
            to_upper_ascii(c)
        } else {
            to_lower_ascii(c)
        };
        push_char(&mut r, m);
        proof {
            if upper_char(c) && i > 0 {
                assert(r@ =~= split_case(cs@.take(i as int), upper) + seq!['_', m]);
            } else {
                assert(r@ =~= split_case(cs@.take(i as int), upper) + seq![m]);
            }
        }
        i = i + 1;
    }
    proof {
        assert(cs@.take(i as int) =~= cs@);
    }
    r
}

/// `taskItem` to `TASK_ITEM`: the name of a route's endpoint.
pub fn to_screaming_case(s: &str) -> (r: String)
    ensures
        r@ == split_case(s@, true),
{
    case_words(s, true)
}

/// `TaskItem` to `task_item`.
pub fn to_snake_case(s: &str) -> (r: String)
    ensures
        r@ == split_case(s@, false),
{
    case_words(s, false)
}

} // verus!
