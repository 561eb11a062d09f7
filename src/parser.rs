//! Parsing markup text into a tree of nodes.
//!
//! Elements are written `<tag attr="text" attr={expr} {spread}>...</tag>`; the
//! tags of the fixed void set need no close tag, every other tag does. A tag that
//! begins with an upper-case letter invokes a component and is written
//! `<Name prop={expr} />`. `{expr}` renders a value; `@for x in expr { ... }` and
//! `@if expr { ... } else { ... }` repeat and choose markup. Expressions are
//! string literals, `true`, `false`, or a variable with field names
//! (`task.title`). What the parser reads is stated by the grammar functions.

use vstd::prelude::*;
use crate::grammar::{
    at, attr_view, attrs_view, cons, expr_view, find_at, name_char, name_end, node_view, nodes_view,
    p_attrs, p_body, p_braced, p_element, p_expr, p_for, p_if, p_markup, p_node, p_nodes, p_path,
    props_of_attrs, props_view, quote_end, runs_off, skip_ws_at, tag_at, text_end, ws, AttrView, ExprView, NodeView,
};
use crate::markup::{node_size, nodes_size, Attribute, Expr, Node, Prop, Value};
use crate::render::text_eq;
use crate::text::{chars_of, is_upper, string_of, upper_char};

verus! {

/// Tags that never have children nor a close tag.
pub open spec fn void_tag(t: Seq<char>) -> bool {
    ||| t == "area"@
    ||| t == "base"@
    ||| t == "br"@
    ||| t == "col"@
    ||| t == "embed"@
    ||| t == "hr"@
    ||| t == "img"@
    ||| t == "input"@
    ||| t == "link"@
    ||| t == "meta"@
    ||| t == "source"@
    ||| t == "track"@
    ||| t == "wbr"@
}

/// Whether `t` is one of the void tags.
pub fn is_void_tag(t: &str) -> (r: bool)
    ensures
        r == void_tag(t@),
{
    text_eq(t, "area") || text_eq(t, "base") || text_eq(t, "br") || text_eq(t, "col") || text_eq(
        t,
        "embed",
    ) || text_eq(t, "hr") || text_eq(t, "img") || text_eq(t, "input") || text_eq(t, "link")
        || text_eq(t, "meta") || text_eq(t, "source") || text_eq(t, "track") || text_eq(t, "wbr")
}

/// A node as the parser builds it: an element's tag does not begin with an
/// upper-case letter (such a tag is a component), it closes itself exactly when
/// it is void, and then has no children.
pub open spec fn wf_node(n: Node) -> bool
    decreases node_size(n), 0nat,
{
    match n {
        Node::Element { tag, children, self_closing, .. } => {
            &&& tag@.len() > 0
            &&& !upper_char(tag@[0])
            &&& self_closing == void_tag(tag@)
            &&& self_closing ==> children@.len() == 0
            &&& wf_nodes(children@)
        },
        Node::Component { name, .. } => name@.len() > 0 && upper_char(name@[0]),
        Node::For { body, .. } => wf_nodes(body@),
        Node::If { then_body, else_body, .. } => wf_nodes(then_body@) && match else_body {
            Option::Some(e) => wf_nodes(e@),
            Option::None => true,
        },
        Node::Fragment(children) => wf_nodes(children@),
        _ => true,
    }
}

pub open spec fn wf_nodes(s: Seq<Node>) -> bool
    decreases nodes_size(s), 1nat,
{
    if s.len() == 0 {
        true
    } else {
        proof {
            reveal_with_fuel(nodes_size, 2);
        }
        wf_node(s[0]) && wf_nodes(s.drop_first())
    }
}

proof fn lemma_wf_push(s: Seq<Node>, n: Node)
    requires
        wf_nodes(s),
        wf_node(n),
    ensures
        wf_nodes(s.push(n)),
    decreases s.len(),
{
    if s.len() == 0 {
        assert(s.push(n).drop_first() =~= Seq::<Node>::empty());
        assert(s.push(n)[0] == n);
        assert(wf_nodes(s.push(n)) == (wf_node(s.push(n)[0]) && wf_nodes(s.push(n).drop_first())));
    } else {
        lemma_wf_push(s.drop_first(), n);
        assert(s.push(n).drop_first() =~= s.drop_first().push(n));
        assert(s.push(n)[0] == s[0]);
        assert(wf_node(s[0]) && wf_nodes(s.drop_first()));
        assert(wf_nodes(s.push(n)) == (wf_node(s.push(n)[0]) && wf_nodes(s.push(n).drop_first())));
    }
}

/// What went wrong in markup.
#[derive(Clone, Debug, PartialEq, Eq)]
pub enum ParseErrorKind {
    /// The input ended inside this element.
    Unclosed(String),
    /// A close tag that does not match the open element.
    MismatchedClose(String),
    /// A close tag with no open element.
    UnexpectedClose,
    /// The input ended where more was needed.
    UnexpectedEnd,
    /// A character that cannot stand here.
    UnexpectedChar(char),
}

/// The failure of an element left open at `p`: it names the tag and stands at
/// the end of the input.
pub open spec fn unclosed_error<T>(r: Result<T, ParseError>, cs: Seq<char>, p: int) -> bool {
    match r {
        Err(e) => e.at == cs.len() && match e.kind {
            ParseErrorKind::Unclosed(n) => n@ == tag_at(cs, p),
            _ => false,
        },
        Ok(_) => false,
    }
}

/// A parse failure and the character position where it was found.
#[derive(Clone, Debug, PartialEq, Eq)]
pub struct ParseError {
    pub kind: ParseErrorKind,
    pub at: usize,
}

fn fail<T>(kind: ParseErrorKind, at: usize) -> (r: Result<T, ParseError>)
    ensures
        r == Err::<T, ParseError>(ParseError { kind, at }),
{
    Err(ParseError { kind, at })
}

fn is_ws(c: char) -> (r: bool)
    ensures
        r == ws(c),
{
    c == ' ' || c == '\n' || c == '\t' || c == '\r'
}

fn is_ident_char(c: char) -> (r: bool)
    ensures
        r == name_char(c, true),
{
    ('a' <= c && c <= 'z') || ('A' <= c && c <= 'Z') || ('0' <= c && c <= '9') || c == '_'
}

fn is_name_char(c: char, ident: bool) -> (r: bool)
    ensures
        r == name_char(c, ident),
{
    if ident {
        is_ident_char(c)
    } else {
        is_ident_char(c) || c == '-' || c == ':' || c == '.'
    }
}

fn skip_ws(cs: &Vec<char>, pos: usize) -> (r: usize)
    requires
        pos <= cs.len(),
    ensures
        pos <= r <= cs.len(),
        r == skip_ws_at(cs@, pos as int),
{
    let mut p = pos;
    while p < cs.len() && is_ws(cs[p])
        invariant
            pos <= p <= cs.len(),
            skip_ws_at(cs@, pos as int) == skip_ws_at(cs@, p as int),
        decreases cs.len() - p,
    {
        p = p + 1;
    }
    p
}

/// Whether the characters of `lit` stand at `pos`.
fn looking_at(cs: &Vec<char>, pos: usize, lit: &str) -> (r: bool)
    requires
        pos <= cs.len(),
    ensures
        r == at(cs@, pos as int, lit@),
{
    let l = chars_of(lit);
    if l.len() > cs.len() - pos {
        return false;
    }
    let mut i: usize = 0;
    while i < l.len()
        invariant
            l@ == lit@,
            pos + l.len() <= cs.len(),
            i <= l.len(),
            forall|j: int| 0 <= j < i ==> cs@[pos + j] == l@[j],
        decreases l.len() - i,
    {
        if cs[pos + i] != l[i] {
            assert(cs@.subrange(pos as int, pos + lit@.len())[i as int] != lit@[i as int]);
            return false;
        }
        i = i + 1;
    }
    assert(cs@.subrange(pos as int, pos + lit@.len()) =~= lit@);
    true
}

/// The longest run of name characters at `pos` (ident characters only when `ident`).
fn read_name(cs: &Vec<char>, pos: usize, ident: bool) -> (r: (String, usize))
    requires
        pos <= cs.len(),
    ensures
        pos <= r.1 <= cs.len(),
        r.1 == name_end(cs@, pos as int, ident),
        r.0@ == cs@.subrange(pos as int, r.1 as int),
{
    let mut p = pos;
    while p < cs.len() && is_name_char(cs[p], ident)
        invariant
            pos <= p <= cs.len(),
            name_end(cs@, pos as int, ident) == name_end(cs@, p as int, ident),
        decreases cs.len() - p,
    {
        p = p + 1;
    }
    (string_of(cs, pos, p), p)
}

/// The first position at or after `pos` where `lit` stands.
fn find(cs: &Vec<char>, pos: usize, lit: &str) -> (r: Option<usize>)
    requires
        pos <= cs.len(),
    ensures
        find_at(cs@, pos as int, lit@) == match r {
            Option::Some(q) => Option::Some(q as int),
            Option::None => Option::None,
        },
        r matches Some(q) ==> pos <= q && q + lit@.len() <= cs.len(),
{
    let mut q = pos;
    while q < cs.len()
        invariant
            pos <= q <= cs.len(),
            find_at(cs@, pos as int, lit@) == find_at(cs@, q as int, lit@),
        decreases cs.len() - q,
    {
        if looking_at(cs, q, lit) {
            return Some(q);
        }
        q = q + 1;
    }
    None
}

proof fn lemma_cons_cons<T>(a: Seq<T>, b: Seq<T>, r: Option<(Seq<T>, int)>)
    ensures
        cons(a, cons(b, r)) == cons(a + b, r),
{
    match r {
        Option::Some((c, q)) => {
            assert(a + (b + c) =~= (a + b) + c);
        },
        Option::None => {},
    }
}

proof fn lemma_cons_empty<T>(r: Option<(Seq<T>, int)>)
    ensures
        cons(Seq::<T>::empty(), r) == r,
{
    match r {
        Option::Some((c, q)) => {
            assert(Seq::<T>::empty() + c =~= c);
        },
        Option::None => {},
    }
}

pub open spec fn names_view(p: Seq<String>) -> Seq<Seq<char>> {
    p.map_values(|s: String| s@)
}

/// An expression at `pos`, after any white space.
fn parse_expr(cs: &Vec<char>, pos: usize) -> (r: Result<(Expr, usize), ParseError>)
    requires
        pos <= cs.len(),
    ensures
        match r {
            Ok((e, q)) => p_expr(cs@, pos as int) == Some((expr_view(e), q as int)) && pos < q
                <= cs.len(),
            Err(_) => p_expr(cs@, pos as int) is None,
        },
        r matches Err(e) ==> e.at <= cs.len(),
{
    let p = skip_ws(cs, pos);
    if p >= cs.len() {
        return fail(ParseErrorKind::UnexpectedEnd, p);
    }
    let c = cs[p];
    if c == '"' {
        let mut q = p + 1;
        while q < cs.len() && cs[q] != '"'
            invariant
                p < q <= cs.len(),
                quote_end(cs@, p + 1) == quote_end(cs@, q as int),
            decreases cs.len() - q,
        {
            q = q + 1;
        }
        if q >= cs.len() {
            return fail(ParseErrorKind::UnexpectedEnd, q);
        }
        let s = string_of(cs, p + 1, q);
        return Ok((Expr::Lit(Value::Text(s)), q + 1));
    }
    let (first, mut q) = read_name(cs, p, true);
    if q == p {
        return fail(ParseErrorKind::UnexpectedChar(c), p);
    }
    if text_eq(first.as_str(), "true") {
        return Ok((Expr::Lit(Value::Bool(true)), q));
    }
    if text_eq(first.as_str(), "false") {
        return Ok((Expr::Lit(Value::Bool(false)), q));
    }
    let ghost q0 = q as int;
    let mut path: Vec<String> = Vec::new();
    path.push(first);
    proof {
        assert(names_view(path@).drop_first() =~= Seq::<Seq<char>>::empty());
        lemma_cons_empty(p_path(cs@, q0));
        assert(p_expr(cs@, pos as int) == match p_path(cs@, q0) {
            Option::None => Option::None,
            Option::Some((rest, q2)) => Option::Some((ExprView::Path(seq![first@] + rest), q2)),
        });
    }
    while q < cs.len() && cs[q] == '.'
        invariant
            p < q <= cs.len(),
            path@.len() >= 1,
            names_view(path@)[0] == first@,
            p_path(cs@, q0) == cons(names_view(path@).drop_first(), p_path(cs@, q as int)),
            p_expr(cs@, pos as int) == match p_path(cs@, q0) {
                Option::None => Option::None,
                Option::Some((rest, q2)) => Option::Some((ExprView::Path(seq![first@] + rest), q2)),
            },
        decreases cs.len() - q,
    {
        let (name, q2) = read_name(cs, q + 1, true);
        if q2 == q + 1 {
            assert(p_path(cs@, q as int) is None);
            return fail(ParseErrorKind::UnexpectedChar('.'), q);
        }
        let ghost before = names_view(path@);
        path.push(name);
        proof {
            assert(names_view(path@) =~= before.push(name@));
            assert(names_view(path@).drop_first() =~= before.drop_first() + seq![name@]);
            lemma_cons_cons(before.drop_first(), seq![name@], p_path(cs@, q2 as int));
        }
        q = q2;
    }
    proof {
        assert(seq![first@] + names_view(path@).drop_first() =~= names_view(path@));
    }
    Ok((Expr::Path(path), q))
}

/// `{expr}` at `pos`, which holds `{`.
fn parse_braced(cs: &Vec<char>, pos: usize) -> (r: Result<(Expr, usize), ParseError>)
    requires
        pos < cs.len(),
    ensures
        match r {
            Ok((e, q)) => p_braced(cs@, pos as int) == Some((expr_view(e), q as int)) && pos < q
                <= cs.len(),
            Err(_) => p_braced(cs@, pos as int) is None,
        },
        r matches Err(e) ==> e.at <= cs.len(),
{
    match parse_expr(cs, pos + 1) {
        Err(e) => Err(e),
        Ok((e, q)) => {
            let q = skip_ws(cs, q);
            if q < cs.len() && cs[q] == '}' {
                Ok((e, q + 1))
            } else if q < cs.len() {
                fail(ParseErrorKind::UnexpectedChar(cs[q]), q)
            } else {
                fail(ParseErrorKind::UnexpectedEnd, q)
            }
        },
    }
}

/// Attributes up to `>` or `/`.
fn parse_attrs(cs: &Vec<char>, pos: usize) -> (r: Result<(Vec<Attribute>, usize), ParseError>)
    requires
        pos <= cs.len(),
    ensures
        match r {
            Ok((v, q)) => p_attrs(cs@, pos as int) == Some((attrs_view(v@), q as int)) && pos <= q
                < cs.len() && (cs@[q as int] == '>' || cs@[q as int] == '/'),
            Err(_) => p_attrs(cs@, pos as int) is None,
        },
        r matches Err(e) ==> e.at <= cs.len(),
{
    let mut attrs: Vec<Attribute> = Vec::new();
    let mut p = pos;
    proof {
        assert(attrs_view(attrs@) =~= Seq::<AttrView>::empty());
        lemma_cons_empty(p_attrs(cs@, pos as int));
    }
    loop
        invariant
            pos <= p <= cs.len(),
            p_attrs(cs@, pos as int) == cons(attrs_view(attrs@), p_attrs(cs@, p as int)),
        decreases cs.len() - p,
    {
        let ghost p0 = p as int;
        let ghost before = attrs_view(attrs@);
        p = skip_ws(cs, p);
        if p >= cs.len() {
            return fail(ParseErrorKind::UnexpectedEnd, p);
        }
        let c = cs[p];
        if c == '>' || c == '/' {
            proof {
                assert(before + Seq::<AttrView>::empty() =~= before);
            }
            return Ok((attrs, p));
        }
        if c == '{' {
            match parse_braced(cs, p) {
                Err(e) => {
                    return Err(e);
                },
                Ok((e, q)) => {
                    let a = Attribute::Spread(e);
                    proof {
                        lemma_cons_cons(before, seq![attr_view(a)], p_attrs(cs@, q as int));
                    }
                    attrs.push(a);
                    proof {
                        assert(attrs_view(attrs@) =~= before + seq![attr_view(a)]);
                    }
                    p = q;
                },
            }
        } else {
            let (name, q) = read_name(cs, p, false);
            if q == p {
                return fail(ParseErrorKind::UnexpectedChar(c), p);
            }
            if q < cs.len() && cs[q] == '=' {
                let v = q + 1;
                if v >= cs.len() {
                    return fail(ParseErrorKind::UnexpectedEnd, v);
                }
                if cs[v] == '{' || cs[v] == '"' {
                    let parsed = if cs[v] == '{' {
                        parse_braced(cs, v)
                    } else {
                        parse_expr(cs, v)
                    };
                    match parsed {
                        Err(e) => {
                            return Err(e);
                        },
                        Ok((e, q2)) => {
                            let a = Attribute::Literal { name, value: Some(e) };
                            proof {
                                lemma_cons_cons(before, seq![attr_view(a)], p_attrs(cs@, q2 as int));
                            }
                            attrs.push(a);
                            proof {
                                assert(attrs_view(attrs@) =~= before + seq![attr_view(a)]);
                            }
                            p = q2;
                        },
                    }
                } else {
                    return fail(ParseErrorKind::UnexpectedChar(cs[v]), v);
                }
            } else {
                let a = Attribute::Literal { name, value: None };
                proof {
                    lemma_cons_cons(before, seq![attr_view(a)], p_attrs(cs@, q as int));
                }
                attrs.push(a);
                proof {
                    assert(attrs_view(attrs@) =~= before + seq![attr_view(a)]);
                }
                p = q;
            }
        }
    }
}

proof fn lemma_view_push(s: Seq<Node>, n: Node)
    ensures
        nodes_view(s.push(n)) == nodes_view(s) + seq![node_view(n)],
    decreases s.len(),
{
    if s.len() == 0 {
        assert(s.push(n).drop_first() =~= Seq::<Node>::empty());
        assert(s.push(n)[0] == n);
        assert(nodes_view(s.push(n)) =~= seq![node_view(n)] + nodes_view(Seq::<Node>::empty()));
        assert(nodes_view(s.push(n)) =~= nodes_view(s) + seq![node_view(n)]);
    } else {
        lemma_view_push(s.drop_first(), n);
        assert(s.push(n).drop_first() =~= s.drop_first().push(n));
        assert(s.push(n)[0] == s[0]);
        assert(nodes_view(s.push(n)) =~= seq![node_view(s[0])] + nodes_view(s.drop_first().push(n)));
        assert(nodes_view(s) =~= seq![node_view(s[0])] + nodes_view(s.drop_first()));
        assert(nodes_view(s.push(n)) =~= nodes_view(s) + seq![node_view(n)]);
    }
}

/// Nodes from `pos` up to the end of input, a close tag, or (in a body) `}`.
fn parse_nodes(cs: &Vec<char>, pos: usize, in_body: bool) -> (r: Result<(Vec<Node>, usize), ParseError>)
    requires
        pos <= cs.len(),
    ensures
        match r {
            Ok((v, p)) => {
                &&& p_nodes(cs@, pos as int, in_body) == Some((nodes_view(v@), p as int))
                &&& pos <= p <= cs.len()
                &&& wf_nodes(v@)
                &&& !in_body && p < cs.len() ==> p + 2 <= cs.len() && cs@[p as int] == '<'
                    && cs@[p + 1] == '/'
            },
            Err(_) => p_nodes(cs@, pos as int, in_body) is None,
        },
        r matches Err(e) ==> e.at <= cs.len(),
        runs_off(cs@, pos as int) ==> unclosed_error(r, cs@, pos as int),
    decreases cs.len() - pos, 2nat,
{
    let mut v: Vec<Node> = Vec::new();
    let mut p = pos;
    proof {
        assert(nodes_view(v@) =~= Seq::<NodeView>::empty());
        lemma_cons_empty(p_nodes(cs@, pos as int, in_body));
    }
    loop
        invariant
            pos <= p <= cs.len(),
            wf_nodes(v@),
            p_nodes(cs@, pos as int, in_body) == cons(nodes_view(v@), p_nodes(cs@, p as int, in_body)),
            runs_off(cs@, pos as int) ==> p == pos,
        decreases cs.len() - p,
    {
        let ghost before = nodes_view(v@);
        if p >= cs.len() {
            proof {
                assert(before + Seq::<NodeView>::empty() =~= before);
            }
            return Ok((v, p));
        }
        if looking_at(cs, p, "</") {
            proof {
                reveal_strlit("</");
                assert(cs@.subrange(p as int, p + 2)[0] == cs@[p as int]);
                assert(cs@.subrange(p as int, p + 2)[1] == cs@[p + 1]);
                assert(before + Seq::<NodeView>::empty() =~= before);
            }
            return Ok((v, p));
        }
        if in_body && cs[p] == '}' {
            proof {
                assert(before + Seq::<NodeView>::empty() =~= before);
            }
            return Ok((v, p));
        }
        match parse_node(cs, p) {
            Err(e) => {
                return Err(e);
            },
            Ok((n, q)) => {
                proof {
                    lemma_wf_push(v@, n);
                    lemma_view_push(v@, n);
                    lemma_cons_cons(before, seq![node_view(n)], p_nodes(cs@, q as int, in_body));
                }
                v.push(n);
                p = q;
            },
        }
    }
}

/// One node at `pos`.
fn parse_node(cs: &Vec<char>, pos: usize) -> (r: Result<(Node, usize), ParseError>)
    requires
        pos < cs.len(),
    ensures
        match r {
            Ok((n, p)) => p_node(cs@, pos as int) == Some((node_view(n), p as int)) && pos < p
                <= cs.len() && wf_node(n),
            Err(_) => p_node(cs@, pos as int) is None,
        },
        r matches Err(e) ==> e.at <= cs.len(),
        runs_off(cs@, pos as int) ==> unclosed_error(r, cs@, pos as int),
    decreases cs.len() - pos, 1nat,
{
    let c = cs[pos];
    if c == '<' {
        if looking_at(cs, pos, "<!--") {
            proof {
                reveal_strlit("<!--");
            }
            match find(cs, pos + 4, "-->") {
                None => fail(ParseErrorKind::UnexpectedEnd, cs.len()),
                Some(q) => {
                    proof {
                        reveal_strlit("-->");
                    }
                    Ok((Node::Comment(string_of(cs, pos + 4, q)), q + 3))
                },
            }
        } else if looking_at(cs, pos, "<!DOCTYPE ") {
            proof {
                reveal_strlit("<!DOCTYPE ");
            }
            match find(cs, pos + 10, ">") {
                None => fail(ParseErrorKind::UnexpectedEnd, cs.len()),
                Some(q) => {
                    proof {
                        reveal_strlit(">");
                    }
                    Ok((Node::Doctype(string_of(cs, pos + 10, q)), q + 1))
                },
            }
        } else {
            parse_element(cs, pos)
        }
    } else if c == '{' {
        match parse_braced(cs, pos) {
            Err(e) => Err(e),
            Ok((e, q)) => Ok((Node::Block(e), q)),
        }
    } else if c == '}' {
        fail(ParseErrorKind::UnexpectedChar(c), pos)
    } else if c == '@' && looking_at(cs, pos, "@for ") {
        proof {
            reveal_strlit("@for ");
        }
        parse_for(cs, pos)
    } else if c == '@' && looking_at(cs, pos, "@if ") {
        proof {
            reveal_strlit("@if ");
        }
        parse_if(cs, pos)
    } else {
        let mut q = pos + 1;
        while q < cs.len() && cs[q] != '<' && cs[q] != '{' && cs[q] != '}' && cs[q] != '@'
            invariant
                pos < q <= cs.len(),
                text_end(cs@, pos + 1) == text_end(cs@, q as int),
            decreases cs.len() - q,
        {
            q = q + 1;
        }
        Ok((Node::Text(string_of(cs, pos, q)), q))
    }
}

/// Turns the attributes of a component tag into its properties; attributes
/// without a value give none.
fn props_of(attrs: Vec<Attribute>) -> (r: Vec<Prop>)
    ensures
        props_view(r@) == props_of_attrs(attrs_view(attrs@)),
{
    let mut attrs = attrs;
    let mut props: Vec<Prop> = Vec::new();
    let ghost all = attrs_view(attrs@);
    proof {
        assert(props_view(props@) + props_of_attrs(all) =~= props_of_attrs(all));
    }
    while attrs.len() > 0
        invariant
            props_view(props@) + props_of_attrs(attrs_view(attrs@)) == props_of_attrs(all),
        decreases attrs.len(),
    {
        let ghost rest = attrs@;
        let a = attrs.remove(0);
        proof {
            assert(attrs@ =~= rest.drop_first());
            assert(attrs_view(rest).drop_first() =~= attrs_view(attrs@));
            assert(attrs_view(rest)[0] == attr_view(a));
        }
        let ghost pv = props_view(props@);
        match a {
            Attribute::Literal { name, value: Some(e) } => {
                let pr = Prop { name, value: e };
                props.push(pr);
                proof {
                    assert(props_view(props@) =~= pv + seq![(pr.name@, expr_view(pr.value))]);
                    assert(props_view(props@) + props_of_attrs(attrs_view(attrs@)) =~= pv + (seq![
                        (pr.name@, expr_view(pr.value)),
                    ] + props_of_attrs(attrs_view(attrs@))));
                }
            },
            _ => {},
        }
    }
    proof {
        assert(attrs_view(attrs@) =~= Seq::<AttrView>::empty());
        assert(props_view(props@) + Seq::<(Seq<char>, ExprView)>::empty() =~= props_view(props@));
    }
    props
}

/// An element or a component invocation at `pos`, which holds `<`.
fn parse_element(cs: &Vec<char>, pos: usize) -> (r: Result<(Node, usize), ParseError>)
    requires
        pos < cs.len(),
    ensures
        match r {
            Ok((n, p)) => p_element(cs@, pos as int) == Some((node_view(n), p as int)) && pos < p
                <= cs.len() && wf_node(n),
            Err(_) => p_element(cs@, pos as int) is None,
        },
        r matches Err(e) ==> e.at <= cs.len(),
        runs_off(cs@, pos as int) ==> unclosed_error(r, cs@, pos as int),
    decreases cs.len() - pos, 0nat,
{
    if pos + 1 >= cs.len() {
        return fail(ParseErrorKind::UnexpectedEnd, pos + 1);
    }
    let (name, q) = read_name(cs, pos + 1, false);
    if q == pos + 1 {
        return fail(ParseErrorKind::UnexpectedChar(cs[pos + 1]), pos + 1);
    }
    let upper = is_upper(cs[pos + 1]);
    assert(name@[0] == cs@[pos + 1]);
    let (attrs, q) = match parse_attrs(cs, q) {
        Err(e) => {
            return Err(e);
        },
        Ok(x) => x,
    };
    if upper {
        if !looking_at(cs, q, "/>") {
            return fail(ParseErrorKind::UnexpectedChar(cs[q]), q);
        }
        proof {
            reveal_strlit("/>");
        }
        let props = props_of(attrs);
        return Ok((Node::Component { name, props }, q + 2));
    }
    let void = is_void_tag(name.as_str());
    if cs[q] == '/' {
        if !looking_at(cs, q, "/>") {
            return fail(ParseErrorKind::UnexpectedChar('/'), q);
        }
        proof {
            reveal_strlit("/>");
        }
        let children: Vec<Node> = Vec::new();
        proof {
            assert(nodes_view(children@) =~= Seq::<NodeView>::empty());
        }
        return Ok((Node::Element { tag: name, attributes: attrs, children, self_closing: void }, q + 2));
    }
    if void {
        let children: Vec<Node> = Vec::new();
        proof {
            assert(nodes_view(children@) =~= Seq::<NodeView>::empty());
        }
        return Ok((Node::Element { tag: name, attributes: attrs, children, self_closing: true }, q + 1));
    }
    let (children, r) = match parse_nodes(cs, q + 1, false) {
        Err(e) => {
            return Err(e);
        },
        Ok(x) => x,
    };
    if r >= cs.len() {
        return fail(ParseErrorKind::Unclosed(name), r);
    }
    let (close, s) = read_name(cs, r + 2, false);
    if !text_eq(close.as_str(), name.as_str()) {
        return fail(ParseErrorKind::MismatchedClose(name), r);
    }
    let s = skip_ws(cs, s);
    if s >= cs.len() {
        return fail(ParseErrorKind::Unclosed(name), s);
    }
    if cs[s] != '>' {
        return fail(ParseErrorKind::UnexpectedChar(cs[s]), s);
    }
    Ok((Node::Element { tag: name, attributes: attrs, children, self_closing: false }, s + 1))
}

/// `{ nodes }` after any white space.
fn parse_body(cs: &Vec<char>, pos: usize) -> (r: Result<(Vec<Node>, usize), ParseError>)
    requires
        pos <= cs.len(),
    ensures
        match r {
            Ok((v, p)) => p_body(cs@, pos as int) == Some((nodes_view(v@), p as int)) && pos < p
                <= cs.len() && wf_nodes(v@),
            Err(_) => p_body(cs@, pos as int) is None,
        },
        r matches Err(e) ==> e.at <= cs.len(),
    decreases cs.len() - pos, 0nat,
{
    let p = skip_ws(cs, pos);
    if p >= cs.len() {
        return fail(ParseErrorKind::UnexpectedEnd, p);
    }
    if cs[p] != '{' {
        return fail(ParseErrorKind::UnexpectedChar(cs[p]), p);
    }
    let (nodes, q) = match parse_nodes(cs, p + 1, true) {
        Err(e) => {
            return Err(e);
        },
        Ok(x) => x,
    };
    if q >= cs.len() {
        return fail(ParseErrorKind::UnexpectedEnd, q);
    }
    if cs[q] != '}' {
        return fail(ParseErrorKind::UnexpectedClose, q);
    }
    Ok((nodes, q + 1))
}

/// `@for binding in expr { ... }` at `pos`.
fn parse_for(cs: &Vec<char>, pos: usize) -> (r: Result<(Node, usize), ParseError>)
    requires
        pos + 5 <= cs.len(),
    ensures
        match r {
            Ok((n, p)) => p_for(cs@, pos as int) == Some((node_view(n), p as int)) && pos < p
                <= cs.len() && wf_node(n),
            Err(_) => p_for(cs@, pos as int) is None,
        },
        r matches Err(e) ==> e.at <= cs.len(),
    decreases cs.len() - pos, 0nat,
{
    let p = skip_ws(cs, pos + 5);
    let (binding, q) = read_name(cs, p, true);
    if q == p {
        return if p < cs.len() {
            fail(ParseErrorKind::UnexpectedChar(cs[p]), p)
        } else {
            fail(ParseErrorKind::UnexpectedEnd, p)
        };
    }
    let q = skip_ws(cs, q);
    if !looking_at(cs, q, "in ") {
        return fail(ParseErrorKind::UnexpectedEnd, q);
    }
    proof {
        reveal_strlit("in ");
    }
    let (iterable, q) = match parse_expr(cs, q + 3) {
        Err(e) => {
            return Err(e);
        },
        Ok(x) => x,
    };
    match parse_body(cs, q) {
        Err(e) => Err(e),
        Ok((body, q)) => Ok((Node::For { binding, iterable, body }, q)),
    }
}

/// `@if expr { ... }`, with an optional `else { ... }`, at `pos`.
fn parse_if(cs: &Vec<char>, pos: usize) -> (r: Result<(Node, usize), ParseError>)
    requires
        pos + 4 <= cs.len(),
    ensures
        match r {
            Ok((n, p)) => p_if(cs@, pos as int) == Some((node_view(n), p as int)) && pos < p
                <= cs.len() && wf_node(n),
            Err(_) => p_if(cs@, pos as int) is None,
        },
        r matches Err(e) ==> e.at <= cs.len(),
    decreases cs.len() - pos, 0nat,
{
    let (condition, q) = match parse_expr(cs, pos + 4) {
        Err(e) => {
            return Err(e);
        },
        Ok(x) => x,
    };
    let (then_body, q) = match parse_body(cs, q) {
        Err(e) => {
            return Err(e);
        },
        Ok(x) => x,
    };
    let e = skip_ws(cs, q);
    if looking_at(cs, e, "else") {
        proof {
            reveal_strlit("else");
        }
        match parse_body(cs, e + 4) {
            Err(x) => Err(x),
            Ok((else_body, q2)) => Ok((Node::If { condition, then_body, else_body: Some(else_body) }, q2)),
        }
    } else {
        Ok((Node::If { condition, then_body, else_body: None }, q))
    }
}

/// Parses markup text into nodes, exactly as the grammar reads it.
pub fn parse_markup(src: &str) -> (r: Result<Vec<Node>, ParseError>)
    ensures
        match r {
            Ok(v) => p_markup(src@) == Some(nodes_view(v@)) && wf_nodes(v@),
            Err(_) => p_markup(src@) is None,
        },
        r matches Err(e) ==> e.at <= src@.len(),
        runs_off(src@, 0) ==> unclosed_error(r, src@, 0),
{
    let cs = chars_of(src);
    match parse_nodes(&cs, 0, false) {
        Err(e) => Err(e),
        Ok((v, p)) => if p < cs.len() {
            fail(ParseErrorKind::UnexpectedClose, p)
        } else {
            Ok(v)
        },
    }
}

} // verus!
