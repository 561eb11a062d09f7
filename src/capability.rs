//! How a value of a Rust type renders as HTML: text and numbers escaped,
//! fragments as they are.

use vstd::prelude::*;
use crate::escape::{escape_html, escaped};
use crate::page::{decimal, decimal_nat, push_decimal, push_decimal_nat, Fragment};
use crate::render::bool_text;

verus! {

/// A type whose values can stand in rendered markup.
pub trait RenderHtml {
    /// The HTML of the value.
    spec fn html_view(&self) -> Seq<char>;

    fn render_html(&self) -> (r: String)
        ensures
            r@ == self.html_view(),
    ;
}

impl RenderHtml for Fragment {
    /// Already HTML: kept as it is.
    open spec fn html_view(&self) -> Seq<char> {
        self.0@
    }

    fn render_html(&self) -> (r: String) {
        self.0.clone()
    }
}

impl RenderHtml for String {
    open spec fn html_view(&self) -> Seq<char> {
        escaped(self@)
    }

    fn render_html(&self) -> (r: String) {
        escape_html(self.as_str())
    }
}

impl<'a> RenderHtml for &'a str {
    open spec fn html_view(&self) -> Seq<char> {
        escaped((*self)@)
    }

    fn render_html(&self) -> (r: String) {
        escape_html(*self)
    }
}

impl RenderHtml for i32 {
    open spec fn html_view(&self) -> Seq<char> {
        decimal(*self as int)
    }

    fn render_html(&self) -> (r: String) {
        let mut s = String::new();
        push_decimal(&mut s, *self as i64);
        s
    }
}

impl RenderHtml for i64 {
    open spec fn html_view(&self) -> Seq<char> {
        decimal(*self as int)
    }

    fn render_html(&self) -> (r: String) {
        let mut s = String::new();
        push_decimal(&mut s, *self);
        s
    }
}

impl RenderHtml for u32 {
    open spec fn html_view(&self) -> Seq<char> {
        decimal_nat(*self as nat)
    }

    fn render_html(&self) -> (r: String) {
        let mut s = String::new();
        push_decimal_nat(&mut s, *self as u64);
        s
    }
}

impl RenderHtml for u64 {
    open spec fn html_view(&self) -> Seq<char> {
        decimal_nat(*self as nat)
    }

    fn render_html(&self) -> (r: String) {
        let mut s = String::new();
        push_decimal_nat(&mut s, *self);
        s
    }
}

impl RenderHtml for bool {
    open spec fn html_view(&self) -> Seq<char> {
        bool_text(*self)
    }

    fn render_html(&self) -> (r: String) {
        if *self {
            String::from_str("true")
        } else {
            String::from_str("false")
        }
    }
}

} // verus!
