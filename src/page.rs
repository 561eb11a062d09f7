//! HTML fragments and full pages.

use vstd::prelude::*;
use crate::text::{push_char, push_str};

verus! {

/// Text known to be well-formed HTML; it is never escaped again.
#[derive(Clone, Debug, Default)]
pub struct Fragment(pub String);

impl Fragment {
    pub fn new(html: String) -> (r: Fragment)
        ensures
            r.0@ == html@,
    {
        Fragment(html)
    }

    pub fn empty() -> (r: Fragment)
        ensures
            r.0@ == Seq::<char>::empty(),
    {
        Fragment(String::new())
    }

    pub fn as_str(&self) -> (r: &str)
        ensures
            r@ == self.0@,
    {
        self.0.as_str()
    }

    /// This fragment inside the default page layout.
    pub fn into_page(self) -> (r: Page)
        ensures
            r.0@ == page_text(self.0@, "Acacia App"@),
    {
        Page::new(self.0)
    }

    /// The two fragments one after the other.
    pub fn concat(self, other: Fragment) -> (r: Fragment)
        ensures
            r.0@ == self.0@ + other.0@,
    {
        let mut s = self.0;
        push_str(&mut s, other.0.as_str());
        Fragment(s)
    }
}

/// Markup before the title in a page.
pub open spec fn page_head() -> Seq<char> {
    "<!DOCTYPE html>\n<html lang=\"en\">\n<head>\n    <meta charset=\"UTF-8\">\n    <meta name=\"viewport\" content=\"width=device-width, initial-scale=1.0\">\n    <title>"@
}

/// Markup between the title and the content.
pub open spec fn page_mid() -> Seq<char> {
    "</title>\n    <script src=\"/__acacia__/htmx.min.js\"></script>\n</head>\n<body>\n"@
}

/// Markup after the content.
pub open spec fn page_tail() -> Seq<char> {
    "\n</body>\n</html>"@
}

/// A full document around `content`, with the HTMX script and `title`.
pub open spec fn page_text(content: Seq<char>, title: Seq<char>) -> Seq<char> {
    page_head() + title + page_mid() + content + page_tail()
}

/// A full HTML document.
#[derive(Clone, Debug)]
pub struct Page(pub String);

impl Page {
    /// `content` in the default layout, titled "Acacia App".
    pub fn new(content: String) -> (r: Page)
        ensures
            r.0@ == page_text(content@, "Acacia App"@),
    {
        Page::with_title(content, "Acacia App")
    }

    /// `content` in the default layout under `title`.
    pub fn with_title(content: String, title: &str) -> (r: Page)
        ensures
            r.0@ == page_text(content@, title@),
    {
        let mut s = String::from_str("<!DOCTYPE html>\n<html lang=\"en\">\n<head>\n    <meta charset=\"UTF-8\">\n    <meta name=\"viewport\" content=\"width=device-width, initial-scale=1.0\">\n    <title>");
        push_str(&mut s, title);
        push_str(&mut s, "</title>\n    <script src=\"/__acacia__/htmx.min.js\"></script>\n</head>\n<body>\n");
        push_str(&mut s, content.as_str());
        push_str(&mut s, "\n</body>\n</html>");
        Page(s)
    }
}

/// Markup that a caller hands to a component.
#[derive(Clone, Debug, Default)]
pub struct Children(pub Fragment);

impl Children {
    pub fn new(fragment: Fragment) -> (r: Children)
        ensures
            r.0 == fragment,
    {
        Children(fragment)
    }

    pub fn into_fragment(self) -> (r: Fragment)
        ensures
            r == self.0,
    {
        self.0
    }
}

/// The character of a decimal digit.
pub open spec fn digit_char(d: nat) -> char {
    (('0' as u8) + d) as u8 as char
}

/// The decimal digits of `n`, without leading zeros.
pub open spec fn decimal_nat(n: nat) -> Seq<char>
    decreases n,
{
    if n < 10 {
        seq![digit_char(n)]
    } else {
        decimal_nat(n / 10).push(digit_char(n % 10))
    }
}

/// The decimal form of an integer, with `-` before a negative one.
pub open spec fn decimal(n: int) -> Seq<char> {
    if n < 0 {
        seq!['-'] + decimal_nat((-n) as nat)
    } else {
        decimal_nat(n as nat)
    }
}

pub fn push_decimal_nat(out: &mut String, n: u64)
    ensures
        final(out)@ == old(out)@ + decimal_nat(n as nat),
    decreases n,
{
    if n >= 10 {
        push_decimal_nat(out, n / 10);
    }
    let d: u8 = (n % 10) as u8;
    push_char(out, (48u8 + d) as char);
    proof {
        assert(decimal_nat(n as nat) == if n < 10 { seq![digit_char(n as nat)] } else {
            decimal_nat((n / 10) as nat).push(digit_char((n % 10) as nat))
        });
    }
}

/// Appends the decimal form of `n`.
pub fn push_decimal(out: &mut String, n: i64)
    ensures
        final(out)@ == old(out)@ + decimal(n as int),
{
    if n < 0 {
        push_char(out, '-');
        let m: u64 = (-(n as i128)) as u64;
        push_decimal_nat(out, m);
    } else {
        push_decimal_nat(out, n as u64);
    }
}

} // verus!
