//! The markup tree: elements, text, expression blocks, control flow and
//! component invocations, with the values that expressions produce.

use vstd::prelude::*;
use crate::page::Fragment;

verus! {

/// A value that an expression produces.
#[derive(Debug)]
pub enum Value {
    /// Text; escaped wherever it is rendered.
    Text(String),
    Int(i64),
    Bool(bool),
    /// Markup that is already HTML; rendered as it is.
    Html(Fragment),
    List(Vec<Value>),
    /// Named fields; a later field of the same name hides an earlier one.
    Record(Vec<(String, Value)>),
}

/// An expression inside markup.
#[derive(Debug)]
pub enum Expr {
    /// A value written in the markup itself.
    Lit(Value),
    /// A variable followed by field names: `task.title` is `["task", "title"]`.
    Path(Vec<String>),
}

/// An attribute of an element.
#[derive(Debug)]
pub enum Attribute {
    /// `name`, `name="text"` or `name={expr}`.
    Literal { name: String, value: Option<Expr> },
    /// `{expr}`: the value's text is put in the tag as it is.
    Spread(Expr),
}

/// A property handed to a component: `name={expr}`.
#[derive(Debug)]
pub struct Prop {
    pub name: String,
    pub value: Expr,
}

/// A node of the markup tree.
#[derive(Debug)]
pub enum Node {
    Element { tag: String, attributes: Vec<Attribute>, children: Vec<Node>, self_closing: bool },
    /// Text of the markup, put out as it is.
    Text(String),
    RawText(String),
    Comment(String),
    Doctype(String),
    /// `{expr}`: the value rendered as HTML.
    Block(Expr),
    /// `@for binding in iterable { body }`.
    For { binding: String, iterable: Expr, body: Vec<Node> },
    /// `@if condition { then_body } else { else_body }`.
    If { condition: Expr, then_body: Vec<Node>, else_body: Option<Vec<Node>> },
    /// An element whose tag begins with an upper-case letter.
    Component { name: String, props: Vec<Prop> },
    Fragment(Vec<Node>),
}

/// A named piece of markup that invocations render with their properties as variables.
#[derive(Debug)]
pub struct Component {
    pub name: String,
    pub body: Vec<Node>,
}

/// The size of a node, for termination.
pub open spec fn node_size(n: Node) -> nat
    decreases n,
{
    match n {
        Node::Element { children, .. } => 1 + nodes_size(children@),
        Node::For { body, .. } => 1 + nodes_size(body@),
        Node::If { then_body, else_body, .. } => 1 + nodes_size(then_body@) + match else_body {
            Option::Some(e) => nodes_size(e@),
            Option::None => 0,
        },
        Node::Fragment(children) => 1 + nodes_size(children@),
        _ => 1,
    }
}

/// The size of a sequence of nodes, for termination; at least 1.
pub open spec fn nodes_size(s: Seq<Node>) -> nat
    decreases s,
{
    if s.len() == 0 {
        1
    } else {
        node_size(s[0]) + nodes_size(s.drop_first())
    }
}

} // verus!
