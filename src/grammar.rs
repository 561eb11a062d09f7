//! The markup grammar, as functions on characters: what the parser reads at a
//! position, and where it stops. `None` is a syntax error.

use vstd::prelude::*;
use crate::markup::{node_size, nodes_size, Attribute, Expr, Node, Prop, Value};
use crate::parser::void_tag;
use crate::text::upper_char;

verus! {

/// An expression as the parser writes it.
pub enum ExprView {
    Text(Seq<char>),
    Bool(bool),
    Path(Seq<Seq<char>>),
    Other,
}

/// An attribute as the parser writes it.
pub enum AttrView {
    Named(Seq<char>, Option<ExprView>),
    Spread(ExprView),
}

/// A node as the parser writes it.
pub enum NodeView {
    Element(Seq<char>, Seq<AttrView>, Seq<NodeView>, bool),
    Text(Seq<char>),
    Comment(Seq<char>),
    Doctype(Seq<char>),
    Block(ExprView),
    For(Seq<char>, ExprView, Seq<NodeView>),
    If(ExprView, Seq<NodeView>, Option<Seq<NodeView>>),
    Component(Seq<char>, Seq<(Seq<char>, ExprView)>),
    Other,
}

pub open spec fn expr_view(e: Expr) -> ExprView {
    match e {
        Expr::Lit(Value::Text(s)) => ExprView::Text(s@),
        Expr::Lit(Value::Bool(b)) => ExprView::Bool(b),
        Expr::Path(p) => ExprView::Path(p@.map_values(|s: String| s@)),
        _ => ExprView::Other,
    }
}

pub open spec fn attr_view(a: Attribute) -> AttrView {
    match a {
        Attribute::Literal { name, value: Option::Some(e) } => AttrView::Named(name@, Some(expr_view(e))),
        Attribute::Literal { name, value: Option::None } => AttrView::Named(name@, None),
        Attribute::Spread(e) => AttrView::Spread(expr_view(e)),
    }
}

pub open spec fn attrs_view(s: Seq<Attribute>) -> Seq<AttrView> {
    s.map_values(|a: Attribute| attr_view(a))
}

pub open spec fn props_view(s: Seq<Prop>) -> Seq<(Seq<char>, ExprView)> {
    s.map_values(|p: Prop| (p.name@, expr_view(p.value)))
}

pub open spec fn node_view(n: Node) -> NodeView
    decreases node_size(n), 0nat,
{
    match n {
        Node::Element { tag, attributes, children, self_closing } => NodeView::Element(
            tag@,
            attrs_view(attributes@),
            nodes_view(children@),
            self_closing,
        ),
        Node::Text(s) => NodeView::Text(s@),
        Node::Comment(s) => NodeView::Comment(s@),
        Node::Doctype(s) => NodeView::Doctype(s@),
        Node::Block(e) => NodeView::Block(expr_view(e)),
        Node::For { binding, iterable, body } => NodeView::For(
            binding@,
            expr_view(iterable),
            nodes_view(body@),
        ),
        Node::If { condition, then_body, else_body } => NodeView::If(
            expr_view(condition),
            nodes_view(then_body@),
            match else_body {
                Option::Some(e) => Some(nodes_view(e@)),
                Option::None => None,
            },
        ),
        Node::Component { name, props } => NodeView::Component(name@, props_view(props@)),
        _ => NodeView::Other,
    }
}

pub open spec fn nodes_view(s: Seq<Node>) -> Seq<NodeView>
    decreases nodes_size(s), 1nat,
{
    if s.len() == 0 {
        Seq::empty()
    } else {
        proof {
            reveal_with_fuel(nodes_size, 2);
        }
        seq![node_view(s[0])] + nodes_view(s.drop_first())
    }
}

pub open spec fn ws(c: char) -> bool {
    c == ' ' || c == '\n' || c == '\t' || c == '\r'
}

pub open spec fn ident_char(c: char) -> bool {
    ('a' <= c && c <= 'z') || ('A' <= c && c <= 'Z') || ('0' <= c && c <= '9') || c == '_'
}

/// Characters of tag and attribute names (`ident`: of variables and fields only).
pub open spec fn name_char(c: char, ident: bool) -> bool {
    if ident {
        ident_char(c)
    } else {
        ident_char(c) || c == '-' || c == ':' || c == '.'
    }
}

/// Where the run of white space at `p` ends.
pub open spec fn skip_ws_at(cs: Seq<char>, p: int) -> int
    decreases cs.len() - p,
{
    if 0 <= p < cs.len() && ws(cs[p]) {
        skip_ws_at(cs, p + 1)
    } else {
        p
    }
}

/// Where the run of name characters at `p` ends.
pub open spec fn name_end(cs: Seq<char>, p: int, ident: bool) -> int
    decreases cs.len() - p,
{
    if 0 <= p < cs.len() && name_char(cs[p], ident) {
        name_end(cs, p + 1, ident)
    } else {
        p
    }
}

/// Where the text that starts at `p` ends: before `<`, `{`, `}` or `@`.
pub open spec fn text_end(cs: Seq<char>, p: int) -> int
    decreases cs.len() - p,
{
    if 0 <= p < cs.len() && cs[p] != '<' && cs[p] != '{' && cs[p] != '}' && cs[p] != '@' {
        text_end(cs, p + 1)
    } else {
        p
    }
}

/// Where the first `"` at or after `p` stands, or the end.
pub open spec fn quote_end(cs: Seq<char>, p: int) -> int
    decreases cs.len() - p,
{
    if 0 <= p < cs.len() && cs[p] != '"' {
        quote_end(cs, p + 1)
    } else {
        p
    }
}

/// `lit` stands at `p`.
pub open spec fn at(cs: Seq<char>, p: int, lit: Seq<char>) -> bool {
    0 <= p && p + lit.len() <= cs.len() && cs.subrange(p, p + lit.len()) == lit
}

/// The first position at or after `p` where `lit` stands.
pub open spec fn find_at(cs: Seq<char>, p: int, lit: Seq<char>) -> Option<int>
    decreases cs.len() - p,
{
    if p < 0 || p >= cs.len() {
        None
    } else if at(cs, p, lit) {
        Some(p)
    } else {
        find_at(cs, p + 1, lit)
    }
}

/// `.field` names after a variable.
pub open spec fn p_path(cs: Seq<char>, q: int) -> Option<(Seq<Seq<char>>, int)>
    decreases cs.len() - q,
{
    if 0 <= q < cs.len() && cs[q] == '.' {
        let q2 = name_end(cs, q + 1, true);
        if q2 <= q + 1 || q2 > cs.len() {
            None
        } else {
            match p_path(cs, q2) {
                Option::None => None,
                Option::Some((rest, q3)) => Some((seq![cs.subrange(q + 1, q2)] + rest, q3)),
            }
        }
    } else {
        Some((Seq::empty(), q))
    }
}

/// An expression after white space at `pos`.
pub open spec fn p_expr(cs: Seq<char>, pos: int) -> Option<(ExprView, int)> {
    let p = skip_ws_at(cs, pos);
    if p < 0 || p >= cs.len() {
        None
    } else if cs[p] == '"' {
        let q = quote_end(cs, p + 1);
        if q >= cs.len() {
            None
        } else {
            Some((ExprView::Text(cs.subrange(p + 1, q)), q + 1))
        }
    } else {
        let q = name_end(cs, p, true);
        let first = cs.subrange(p, q);
        if q <= p {
            None
        } else if first == "true"@ {
            Some((ExprView::Bool(true), q))
        } else if first == "false"@ {
            Some((ExprView::Bool(false), q))
        } else {
            match p_path(cs, q) {
                Option::None => None,
                Option::Some((rest, q2)) => Some((ExprView::Path(seq![first] + rest), q2)),
            }
        }
    }
}

/// `{expr}` at `pos`.
pub open spec fn p_braced(cs: Seq<char>, pos: int) -> Option<(ExprView, int)> {
    match p_expr(cs, pos + 1) {
        Option::None => None,
        Option::Some((e, q)) => {
            let q2 = skip_ws_at(cs, q);
            if 0 <= q2 < cs.len() && cs[q2] == '}' {
                Some((e, q2 + 1))
            } else {
                None
            }
        },
    }
}

pub open spec fn cons<T>(a: Seq<T>, r: Option<(Seq<T>, int)>) -> Option<(Seq<T>, int)> {
    match r {
        Option::Some((b, q)) => Some((a + b, q)),
        Option::None => None,
    }
}

/// Attributes up to `>` or `/`.
pub open spec fn p_attrs(cs: Seq<char>, p: int) -> Option<(Seq<AttrView>, int)>
    decreases cs.len() - p,
{
    let p1 = skip_ws_at(cs, p);
    if p1 < p || p1 >= cs.len() {
        None
    } else if cs[p1] == '>' || cs[p1] == '/' {
        Some((Seq::empty(), p1))
    } else if cs[p1] == '{' {
        match p_braced(cs, p1) {
            Option::None => None,
            Option::Some((e, q)) => if q <= p || q > cs.len() {
                None
            } else {
                cons(seq![AttrView::Spread(e)], p_attrs(cs, q))
            },
        }
    } else {
        let q = name_end(cs, p1, false);
        let name = cs.subrange(p1, q);
        if q <= p1 {
            None
        } else if q < cs.len() && cs[q] == '=' {
            let v = q + 1;
            if v >= cs.len() {
                None
            } else if cs[v] == '{' || cs[v] == '"' {
                match if cs[v] == '{' {
                    p_braced(cs, v)
                } else {
                    p_expr(cs, v)
                } {
                    Option::None => None,
                    Option::Some((e, q2)) => if q2 <= p || q2 > cs.len() {
                        None
                    } else {
                        cons(seq![AttrView::Named(name, Some(e))], p_attrs(cs, q2))
                    },
                }
            } else {
                None
            }
        } else if q > cs.len() {
            None
        } else {
            cons(seq![AttrView::Named(name, None)], p_attrs(cs, q))
        }
    }
}

/// The properties that a component tag's attributes give: those with a value.
pub open spec fn props_of_attrs(s: Seq<AttrView>) -> Seq<(Seq<char>, ExprView)>
    decreases s.len(),
{
    if s.len() == 0 {
        Seq::empty()
    } else {
        match s[0] {
            AttrView::Named(n, Option::Some(e)) => seq![(n, e)] + props_of_attrs(s.drop_first()),
            _ => props_of_attrs(s.drop_first()),
        }
    }
}

/// Nodes from `p` up to the end, a close tag `</`, or (in a body) `}`.
pub open spec fn p_nodes(cs: Seq<char>, p: int, in_body: bool) -> Option<(Seq<NodeView>, int)>
    decreases cs.len() - p, 2nat,
{
    if p < 0 {
        None
    } else if p >= cs.len() || at(cs, p, "</"@) || (in_body && cs[p] == '}') {
        Some((Seq::empty(), p))
    } else {
        match p_node(cs, p) {
            Option::None => None,
            Option::Some((n, q)) => if q <= p || q > cs.len() {
                None
            } else {
                cons(seq![n], p_nodes(cs, q, in_body))
            },
        }
    }
}

/// One node at `p`.
pub open spec fn p_node(cs: Seq<char>, p: int) -> Option<(NodeView, int)>
    decreases cs.len() - p, 1nat,
{
    if p < 0 || p >= cs.len() {
        None
    } else if cs[p] == '<' {
        if at(cs, p, "<!--"@) {
            match find_at(cs, p + 4, "-->"@) {
                Option::None => None,
                Option::Some(q) => Some((NodeView::Comment(cs.subrange(p + 4, q)), q + 3)),
            }
        } else if at(cs, p, "<!DOCTYPE "@) {
            match find_at(cs, p + 10, ">"@) {
                Option::None => None,
                Option::Some(q) => Some((NodeView::Doctype(cs.subrange(p + 10, q)), q + 1)),
            }
        } else {
            p_element(cs, p)
        }
    } else if cs[p] == '{' {
        match p_braced(cs, p) {
            Option::None => None,
            Option::Some((e, q)) => Some((NodeView::Block(e), q)),
        }
    } else if cs[p] == '}' {
        None
    } else if cs[p] == '@' && at(cs, p, "@for "@) {
        p_for(cs, p)
    } else if cs[p] == '@' && at(cs, p, "@if "@) {
        p_if(cs, p)
    } else {
        let q = text_end(cs, p + 1);
        Some((NodeView::Text(cs.subrange(p, q)), q))
    }
}

/// An element or a component invocation at `p`, which holds `<`.
pub open spec fn p_element(cs: Seq<char>, p: int) -> Option<(NodeView, int)>
    decreases cs.len() - p, 0nat,
{
    if p < 0 || p + 1 >= cs.len() {
        None
    } else {
        let q = name_end(cs, p + 1, false);
        let name = cs.subrange(p + 1, q);
        if q <= p + 1 {
            None
        } else {
            match p_attrs(cs, q) {
                Option::None => None,
                Option::Some((attrs, q)) => if upper_char(cs[p + 1]) {
                    if at(cs, q, "/>"@) {
                        Some((NodeView::Component(name, props_of_attrs(attrs)), q + 2))
                    } else {
                        None
                    }
                } else if cs[q] == '/' {
                    if at(cs, q, "/>"@) {
                        Some((NodeView::Element(name, attrs, Seq::empty(), void_tag(name)), q + 2))
                    } else {
                        None
                    }
                } else if void_tag(name) {
                    Some((NodeView::Element(name, attrs, Seq::empty(), true), q + 1))
                } else if q + 1 <= p || q + 1 > cs.len() {
                    None
                } else {
                    match p_nodes(cs, q + 1, false) {
                        Option::None => None,
                        Option::Some((children, r)) => if r >= cs.len() {
                            None
                        } else {
                            let s = name_end(cs, r + 2, false);
                            if cs.subrange(r + 2, s) != name {
                                None
                            } else {
                                let s2 = skip_ws_at(cs, s);
                                if s2 >= cs.len() || cs[s2] != '>' {
                                    None
                                } else {
                                    Some((NodeView::Element(name, attrs, children, false), s2 + 1))
                                }
                            }
                        },
                    }
                },
            }
        }
    }
}

/// `{ nodes }` after white space at `pos`.
pub open spec fn p_body(cs: Seq<char>, pos: int) -> Option<(Seq<NodeView>, int)>
    decreases cs.len() - pos, 0nat,
{
    let p = skip_ws_at(cs, pos);
    if p < pos || p >= cs.len() || cs[p] != '{' {
        None
    } else {
        match p_nodes(cs, p + 1, true) {
            Option::None => None,
            Option::Some((nodes, q)) => if q >= cs.len() || cs[q] != '}' {
                None
            } else {
                Some((nodes, q + 1))
            },
        }
    }
}

/// `@for binding in expr { ... }` at `pos`.
pub open spec fn p_for(cs: Seq<char>, pos: int) -> Option<(NodeView, int)>
    decreases cs.len() - pos, 0nat,
{
    let p = skip_ws_at(cs, pos + 5);
    let q = name_end(cs, p, true);
    if q <= p {
        None
    } else {
        let q1 = skip_ws_at(cs, q);
        if !at(cs, q1, "in "@) {
            None
        } else {
            match p_expr(cs, q1 + 3) {
                Option::None => None,
                Option::Some((it, q2)) => if q2 <= pos || q2 > cs.len() {
                    None
                } else {
                    match p_body(cs, q2) {
                        Option::None => None,
                        Option::Some((body, q3)) => Some(
                            (NodeView::For(cs.subrange(p, q), it, body), q3),
                        ),
                    }
                },
            }
        }
    }
}

/// `@if expr { ... }`, with an optional `else { ... }`, at `pos`.
pub open spec fn p_if(cs: Seq<char>, pos: int) -> Option<(NodeView, int)>
    decreases cs.len() - pos, 0nat,
{
    match p_expr(cs, pos + 4) {
        Option::None => None,
        Option::Some((c, q)) => if q <= pos || q > cs.len() {
            None
        } else {
            match p_body(cs, q) {
                Option::None => None,
                Option::Some((t, q2)) => {
                    let e = skip_ws_at(cs, q2);
                    if at(cs, e, "else"@) {
                        if e + 4 <= pos || e + 4 > cs.len() {
                            None
                        } else {
                            match p_body(cs, e + 4) {
                                Option::None => None,
                                Option::Some((f, q3)) => Some((NodeView::If(c, t, Some(f)), q3)),
                            }
                        }
                    } else {
                        Some((NodeView::If(c, t, None), q2))
                    }
                },
            }
        },
    }
}

/// The nodes of a whole document; it fails where input is left over.
pub open spec fn p_markup(cs: Seq<char>) -> Option<Seq<NodeView>> {
    match p_nodes(cs, 0, false) {
        Option::Some((v, p)) => if p >= cs.len() {
            Some(v)
        } else {
            None
        },
        Option::None => None,
    }
}

/// The element at `p` is not void, its open tag reads, and its content runs to
/// the end of the input with no close tag: it stays unclosed.
pub open spec fn runs_off(cs: Seq<char>, p: int) -> bool {
    let q = name_end(cs, p + 1, false);
    &&& 0 <= p
    &&& p + 1 < cs.len()
    &&& cs[p] == '<'
    &&& !at(cs, p, "</"@)
    &&& !at(cs, p, "<!--"@)
    &&& !at(cs, p, "<!DOCTYPE "@)
    &&& q > p + 1
    &&& !upper_char(cs[p + 1])
    &&& !void_tag(cs.subrange(p + 1, q))
    &&& match p_attrs(cs, q) {
        Option::Some((_, q2)) => 0 <= q2 < cs.len() && cs[q2] == '>' && match p_nodes(
            cs,
            q2 + 1,
            false,
        ) {
            Option::Some((_, r)) => r >= cs.len(),
            Option::None => false,
        },
        Option::None => false,
    }
}

/// The name of the element at `p`.
pub open spec fn tag_at(cs: Seq<char>, p: int) -> Seq<char> {
    cs.subrange(p + 1, name_end(cs, p + 1, false))
}

} // verus!
