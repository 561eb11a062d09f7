//! HTML escaping of text.

use vstd::prelude::*;

verus! {

/// The entity that stands for one character in escaped text.
pub open spec fn escape_char(c: char) -> Seq<char> {
    if c == '&' {
        seq!['&', 'a', 'm', 'p', ';']
    } else if c == '<' {
        seq!['&', 'l', 't', ';']
    } else if c == '>' {
        seq!['&', 'g', 't', ';']
    } else if c == '"' {
        seq!['&', 'q', 'u', 'o', 't', ';']
    } else if c == '\'' {
        seq!['&', '#', 'x', '2', '7', ';']
    } else {
        seq![c]
    }
}

/// `s` with each of `& < > " '` replaced by its entity.
pub open spec fn escaped(s: Seq<char>) -> Seq<char>
    decreases s.len(),
{
    if s.len() == 0 {
        Seq::empty()
    } else {
        escaped(s.drop_last()) + escape_char(s.last())
    }
}

/// Relies on `html_escape::encode_quoted_attribute`: it replaces each of
/// `& < > " '` by `&amp; &lt; &gt; &quot; &#x27;` and keeps every other character.
#[verifier::external_body]
fn encode_quoted(s: &str) -> (r: String)
    ensures
        r@ == escaped(s@),
{
    html_escape::encode_quoted_attribute(s).into_owned()
}

/// Escapes the HTML special characters of `s`.
pub fn escape_html(s: &str) -> (r: String)
    ensures
        r@ == escaped(s@),
{
    encode_quoted(s)
}

} // verus!
