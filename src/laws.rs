//! Properties of rendering and of markup parsing that hold for every input.

use vstd::prelude::*;
use crate::escape::{escape_char, escaped};
use crate::grammar::{
    at, name_char, name_end, p_attrs, p_element, p_markup, p_node, p_nodes, runs_off, skip_ws_at,
    tag_at, AttrView, NodeView,
};
use crate::parser::void_tag;
use crate::text::upper_char;
use crate::markup::{Attribute, Component, Expr, Node, Value};
use crate::page::{decimal, decimal_nat, digit_char};
use crate::render::{
    attr_html, bool_text, each_html, eval, find_component, is_bool_attr, node_html, nodes_html,
    props_env, then, RenderError,
};

verus! {

/// An entity of escaped text begins at `i`.
pub open spec fn entity_at(s: Seq<char>, i: int) -> bool {
    ||| i + 5 <= s.len() && s.subrange(i, i + 5) == seq!['&', 'a', 'm', 'p', ';']
    ||| i + 4 <= s.len() && s.subrange(i, i + 4) == seq!['&', 'l', 't', ';']
    ||| i + 4 <= s.len() && s.subrange(i, i + 4) == seq!['&', 'g', 't', ';']
    ||| i + 6 <= s.len() && s.subrange(i, i + 6) == seq!['&', 'q', 'u', 'o', 't', ';']
    ||| i + 6 <= s.len() && s.subrange(i, i + 6) == seq!['&', '#', 'x', '2', '7', ';']
}

/// No `< > " '` stands in `s`, and every `&` begins an entity.
pub open spec fn html_safe(s: Seq<char>) -> bool {
    &&& forall|i: int|
        0 <= i < s.len() ==> #[trigger] s[i] != '<' && s[i] != '>' && s[i] != '"' && s[i] != '\''
    &&& forall|i: int| 0 <= i < s.len() && #[trigger] s[i] == '&' ==> entity_at(s, i)
}

proof fn lemma_safe_concat(a: Seq<char>, b: Seq<char>)
    requires
        html_safe(a),
        html_safe(b),
    ensures
        html_safe(a + b),
{
    let s = a + b;
    assert forall|i: int| 0 <= i < s.len() && #[trigger] s[i] == '&' implies entity_at(s, i) by {
        if i < a.len() {
            assert(s[i] == a[i]);
            assert(entity_at(a, i));
            if i + 5 <= a.len() {
                assert(s.subrange(i, i + 5) =~= a.subrange(i, i + 5));
            }
            if i + 4 <= a.len() {
                assert(s.subrange(i, i + 4) =~= a.subrange(i, i + 4));
            }
            if i + 6 <= a.len() {
                assert(s.subrange(i, i + 6) =~= a.subrange(i, i + 6));
            }
        } else {
            let j = i - a.len();
            assert(s[i] == b[j]);
            assert(entity_at(b, j));
            if j + 5 <= b.len() {
                assert(s.subrange(i, i + 5) =~= b.subrange(j, j + 5));
            }
            if j + 4 <= b.len() {
                assert(s.subrange(i, i + 4) =~= b.subrange(j, j + 4));
            }
            if j + 6 <= b.len() {
                assert(s.subrange(i, i + 6) =~= b.subrange(j, j + 6));
            }
        }
    }
    assert forall|i: int| 0 <= i < s.len() implies #[trigger] s[i] != '<' && s[i] != '>' && s[i]
        != '"' && s[i] != '\'' by {
        if i < a.len() {
            assert(s[i] == a[i]);
        } else {
            assert(s[i] == b[i - a.len()]);
        }
    }
}

proof fn lemma_escape_char_safe(c: char)
    ensures
        html_safe(escape_char(c)),
{
    let e = escape_char(c);
    if c == '&' {
        assert(e.subrange(0, 5) =~= e);
    } else if c == '<' {
        assert(e.subrange(0, 4) =~= e);
    } else if c == '>' {
        assert(e.subrange(0, 4) =~= e);
    } else if c == '"' {
        assert(e.subrange(0, 6) =~= e);
    } else if c == '\'' {
        assert(e.subrange(0, 6) =~= e);
    }
}

proof fn lemma_escaped_safe(s: Seq<char>)
    ensures
        html_safe(escaped(s)),
    decreases s.len(),
{
    if s.len() > 0 {
        lemma_escaped_safe(s.drop_last());
        lemma_escape_char_safe(s.last());
        lemma_safe_concat(escaped(s.drop_last()), escape_char(s.last()));
    }
}

/// Only digits, and `-`.
pub open spec fn numeric(s: Seq<char>) -> bool {
    forall|i: int| 0 <= i < s.len() ==> #[trigger] s[i] == '-' || ('0' <= s[i] && s[i] <= '9')
}

proof fn lemma_decimal_nat_numeric(n: nat)
    ensures
        numeric(decimal_nat(n)),
    decreases n,
{
    let d = digit_char(n % 10);
    assert((n % 10) < 10);
    assert('0' <= d && d <= '9') by {
        let k: u8 = (48 + n % 10) as u8;
        assert(48 <= k <= 57);
    }
    if n >= 10 {
        lemma_decimal_nat_numeric(n / 10);
        let p = decimal_nat(n / 10);
        assert forall|i: int| 0 <= i < p.push(d).len() implies #[trigger] p.push(d)[i] == '-' || (
        '0' <= p.push(d)[i] && p.push(d)[i] <= '9') by {
            if i < p.len() {
                assert(p.push(d)[i] == p[i]);
            }
        }
    } else {
        assert(n % 10 == n);
    }
}

proof fn lemma_numeric_safe(s: Seq<char>)
    requires
        numeric(s),
    ensures
        html_safe(s),
{
    assert forall|i: int| 0 <= i < s.len() implies #[trigger] s[i] != '<' && s[i] != '>' && s[i]
        != '"' && s[i] != '\'' by {
        assert(s[i] == '-' || ('0' <= s[i] && s[i] <= '9'));
    }
    assert forall|i: int| 0 <= i < s.len() && #[trigger] s[i] == '&' implies entity_at(s, i) by {
        assert(s[i] == '-' || ('0' <= s[i] && s[i] <= '9'));
    }
}

/// A scalar value (text, number or boolean) that an expression block renders
/// brings no `< > " '` into the output, and each `&` it brings begins an entity:
/// only `Value::Html` passes its markup through.
pub proof fn law_block_escapes_scalars(
    e: Expr,
    env: Seq<(String, Value)>,
    comps: Seq<Component>,
    fuel: nat,
    v: Value,
)
    requires
        eval(e, env) == Ok::<Value, RenderError>(v),
        v is Text || v is Int || v is Bool,
    ensures
        node_html(Node::Block(e), env, comps, fuel) matches Ok(h) && html_safe(h),
{
    match v {
        Value::Text(s) => {
            lemma_escaped_safe(s@);
        },
        Value::Int(n) => {
            lemma_decimal_nat_numeric((if n < 0 { -n } else { n as int }) as nat);
            if n < 0 {
                let t = seq!['-'] + decimal_nat((-n) as nat);
                assert forall|i: int| 0 <= i < t.len() implies #[trigger] t[i] == '-' || ('0' <= t[i]
                    && t[i] <= '9') by {
                    if i > 0 {
                        assert(t[i] == decimal_nat((-n) as nat)[i - 1]);
                    }
                }
                lemma_numeric_safe(t);
            } else {
                lemma_numeric_safe(decimal_nat(n as nat));
            }
        },
        Value::Bool(b) => {
            reveal_strlit("true");
            reveal_strlit("false");
            assert(numeric(bool_text(b)) || html_safe(bool_text(b)));
        },
        _ => {},
    }
}

/// A boolean attribute whose condition is false leaves no trace; one whose
/// condition is true stands once, bare, without `=value`.
pub proof fn law_bool_attr(name: String, e: Expr, env: Seq<(String, Value)>, b: bool)
    requires
        is_bool_attr(name@),
        eval(e, env) == Ok::<Value, RenderError>(Value::Bool(b)),
    ensures
        attr_html(Attribute::Literal { name, value: Some(e) }, env) == Ok::<Seq<char>, RenderError>(
            if b {
                " "@ + name@
            } else {
                Seq::empty()
            },
        ),
{
}

proof fn lemma_then_assoc(
    a: Result<Seq<char>, RenderError>,
    b: Result<Seq<char>, RenderError>,
    c: Result<Seq<char>, RenderError>,
)
    ensures
        then(a, then(b, c)) == then(then(a, b), c),
{
    match (a, b, c) {
        (Ok(x), Ok(y), Ok(z)) => {
            assert(x + (y + z) =~= (x + y) + z);
        },
        _ => {},
    }
}

/// A loop over no items renders nothing.
pub proof fn law_each_empty(
    body: Seq<Node>,
    binding: String,
    env: Seq<(String, Value)>,
    comps: Seq<Component>,
    fuel: nat,
)
    ensures
        each_html(body, binding, Seq::empty(), env, comps, fuel) == Ok::<Seq<char>, RenderError>(
            Seq::empty(),
        ),
{
}

/// A loop over `a + b` renders the loop over `a` followed by the loop over `b`:
/// items come out in their order.
pub proof fn law_each_concat(
    body: Seq<Node>,
    binding: String,
    a: Seq<Value>,
    b: Seq<Value>,
    env: Seq<(String, Value)>,
    comps: Seq<Component>,
    fuel: nat,
)
    ensures
        each_html(body, binding, a + b, env, comps, fuel) == then(
            each_html(body, binding, a, env, comps, fuel),
            each_html(body, binding, b, env, comps, fuel),
        ),
    decreases a.len(),
{
    if a.len() == 0 {
        assert(a + b =~= b);
        match each_html(body, binding, b, env, comps, fuel) {
            Ok(x) => {
                assert(Seq::<char>::empty() + x =~= x);
            },
            Err(_) => {},
        }
    } else {
        assert((a + b).drop_first() =~= a.drop_first() + b);
        assert((a + b)[0] == a[0]);
        law_each_concat(body, binding, a.drop_first(), b, env, comps, fuel);
        lemma_then_assoc(
            nodes_html(body, env.push((binding, a[0])), comps, fuel),
            each_html(body, binding, a.drop_first(), env, comps, fuel),
            each_html(body, binding, b, env, comps, fuel),
        );
    }
}

/// A loop over `[x, y]` renders the body with `x` bound, immediately followed
/// by the body with `y` bound.
pub proof fn law_each_pair(
    body: Seq<Node>,
    binding: String,
    x: Value,
    y: Value,
    env: Seq<(String, Value)>,
    comps: Seq<Component>,
    fuel: nat,
)
    ensures
        each_html(body, binding, seq![x, y], env, comps, fuel) == then(
            nodes_html(body, env.push((binding, x)), comps, fuel),
            nodes_html(body, env.push((binding, y)), comps, fuel),
        ),
{
    let s = seq![x, y];
    assert(s.drop_first() =~= seq![y]);
    assert(seq![y].drop_first() =~= Seq::<Value>::empty());
    assert(s[0] == x && seq![y][0] == y);
    let ny = nodes_html(body, env.push((binding, y)), comps, fuel);
    assert(each_html(body, binding, seq![y], env, comps, fuel) == then(
        ny,
        each_html(body, binding, Seq::<Value>::empty(), env, comps, fuel),
    ));
    assert(each_html(body, binding, s, env, comps, fuel) == then(
        nodes_html(body, env.push((binding, x)), comps, fuel),
        each_html(body, binding, seq![y], env, comps, fuel),
    ));
    match nodes_html(body, env.push((binding, y)), comps, fuel) {
        Ok(t) => {
            assert(t + Seq::<char>::empty() =~= t);
        },
        Err(_) => {},
    }
}

proof fn lemma_name_run(s: Seq<char>, t: Seq<char>, i: int)
    requires
        s == seq!['<'] + t + seq!['>'],
        forall|k: int| 0 <= k < t.len() ==> name_char(#[trigger] t[k], false),
        0 <= i <= t.len(),
    ensures
        name_end(s, 1 + i, false) == 1 + t.len(),
    decreases t.len() - i,
{
    if i < t.len() {
        assert(s[1 + i] == t[i]);
        lemma_name_run(s, t, i + 1);
    } else {
        assert(s[1 + i] == '>');
    }
}

/// A lone tag `<t>`, with `t` a lower-case-led name, parses exactly when `t`
/// is one of the void tags, and then gives one element that closes itself and
/// has no attributes and no children. Every other tag needs its close tag: the
/// element runs off the end of the input, so parsing names it as unclosed.
pub proof fn law_lone_tag(t: Seq<char>)
    requires
        t.len() > 0,
        forall|k: int| 0 <= k < t.len() ==> name_char(#[trigger] t[k], false),
        !upper_char(t[0]),
    ensures
        void_tag(t) ==> p_markup(seq!['<'] + t + seq!['>']) == Some(
            seq![NodeView::Element(t, Seq::<AttrView>::empty(), Seq::<NodeView>::empty(), true)],
        ),
        !void_tag(t) ==> p_markup(seq!['<'] + t + seq!['>']) is None,
        !void_tag(t) ==> runs_off(seq!['<'] + t + seq!['>'], 0) && tag_at(
            seq!['<'] + t + seq!['>'],
            0,
        ) == t,
{
    let s = seq!['<'] + t + seq!['>'];
    let n = s.len() as int;
    let q = 1 + t.len() as int;
    assert(s[0] == '<');
    assert(s[1] == t[0]);
    assert(name_char(t[0], false));
    assert(s[q] == '>');
    reveal_strlit("</");
    reveal_strlit("<!--");
    reveal_strlit("<!DOCTYPE ");
    reveal_strlit("/>");
    assert(!at(s, 0, "</"@)) by {
        if at(s, 0, "</"@) {
            assert(s.subrange(0, 2)[1] == s[1]);
        }
    }
    assert(!at(s, 0, "<!--"@)) by {
        if at(s, 0, "<!--"@) {
            assert(s.subrange(0, 4)[1] == s[1]);
        }
    }
    assert(!at(s, 0, "<!DOCTYPE "@)) by {
        if at(s, 0, "<!DOCTYPE "@) {
            assert(s.subrange(0, 10)[1] == s[1]);
        }
    }
    lemma_name_run(s, t, 0);
    assert(s.subrange(1, q) =~= t);
    assert(skip_ws_at(s, q) == q);
    assert(p_attrs(s, q) == Some((Seq::<AttrView>::empty(), q)));
    let el = NodeView::Element(t, Seq::<AttrView>::empty(), Seq::<NodeView>::empty(), true);
    if void_tag(t) {
        assert(p_element(s, 0) == Some((el, n)));
        assert(p_node(s, 0) == Some((el, n)));
        assert(p_nodes(s, n, false) == Some((Seq::<NodeView>::empty(), n)));
        assert(seq![el] + Seq::<NodeView>::empty() =~= seq![el]);
    } else {
        assert(p_nodes(s, q + 1, false) == Some((Seq::<NodeView>::empty(), n)));
        assert(p_element(s, 0) is None);
        assert(p_node(s, 0) is None);
    }
}

proof fn lemma_numeric_escaped(s: Seq<char>)
    requires
        numeric(s),
    ensures
        escaped(s) == s,
    decreases s.len(),
{
    if s.len() > 0 {
        let d = s.drop_last();
        assert(numeric(d)) by {
            assert forall|i: int| 0 <= i < d.len() implies #[trigger] d[i] == '-' || ('0' <= d[i]
                && d[i] <= '9') by {
                assert(d[i] == s[i]);
            }
        }
        lemma_numeric_escaped(d);
        let c = s.last();
        assert(s[s.len() - 1] == '-' || ('0' <= s[s.len() - 1] && s[s.len() - 1] <= '9'));
        assert(escape_char(c) == seq![c]);
        assert(d.push(c) =~= s);
    }
}

proof fn lemma_decimal_numeric(n: int)
    ensures
        numeric(decimal(n)),
{
    if n < 0 {
        lemma_decimal_nat_numeric((-n) as nat);
        let t = seq!['-'] + decimal_nat((-n) as nat);
        assert forall|i: int| 0 <= i < t.len() implies #[trigger] t[i] == '-' || ('0' <= t[i] && t[i]
            <= '9') by {
            if i > 0 {
                assert(t[i] == decimal_nat((-n) as nat)[i - 1]);
            }
        }
    } else {
        lemma_decimal_nat_numeric(n as nat);
    }
}

/// The decimal text of an integer is the same after escaping, and holds none of
/// `& < > " '`: a number renders the same whether or not it is escaped.
pub proof fn law_decimal_needs_no_escape(n: int)
    ensures
        escaped(decimal(n)) == decimal(n),
        html_safe(decimal(n)),
        forall|i: int| 0 <= i < decimal(n).len() ==> #[trigger] decimal(n)[i] != '&',
{
    lemma_decimal_numeric(n);
    lemma_numeric_escaped(decimal(n));
    lemma_numeric_safe(decimal(n));
    let s = decimal(n);
    assert forall|i: int| 0 <= i < s.len() implies #[trigger] s[i] != '&' by {
        assert(s[i] == '-' || ('0' <= s[i] && s[i] <= '9'));
    }
}

/// `n` is an `@if` whose condition holds in `env` and whose branch is one
/// invocation of the component `c`, with properties that evaluate to `penv`.
pub open spec fn holds_one_component(
    n: Node,
    env: Seq<(String, Value)>,
    comps: Seq<Component>,
    c: Component,
    penv: Seq<(String, Value)>,
) -> bool {
    match n {
        Node::If { condition, then_body, .. } => {
            &&& eval(condition, env) == Ok::<Value, RenderError>(Value::Bool(true))
            &&& then_body@.len() == 1
            &&& match then_body@[0] {
                Node::Component { name, props } => find_component(comps, name@) == Some(c)
                    && props_env(props@, env) == Ok::<Seq<(String, Value)>, RenderError>(penv),
                _ => false,
            }
        },
        _ => false,
    }
}

/// An `@if` whose condition holds and whose branch is one component invocation
/// renders that component's body once, with the invocation's properties as its
/// variables, and nothing else; the invocation takes one level of the nesting
/// budget.
pub proof fn law_if_renders_component_once(
    n: Node,
    env: Seq<(String, Value)>,
    comps: Seq<Component>,
    fuel: nat,
    c: Component,
    penv: Seq<(String, Value)>,
)
    requires
        holds_one_component(n, env, comps, c, penv),
        fuel >= 1,
    ensures
        node_html(n, env, comps, fuel) == nodes_html(c.body@, penv, comps, (fuel - 1) as nat),
{
    match n {
        Node::If { condition, then_body, .. } => {
            let s = then_body@;
            let inner = nodes_html(c.body@, penv, comps, (fuel - 1) as nat);
            assert(s.drop_first() =~= Seq::<Node>::empty());
            assert(nodes_html(s.drop_first(), env, comps, fuel) == Ok::<Seq<char>, RenderError>(
                Seq::empty(),
            ));
            assert(node_html(s[0], env, comps, fuel) == inner);
            assert(nodes_html(s, env, comps, fuel) == then(
                node_html(s[0], env, comps, fuel),
                nodes_html(s.drop_first(), env, comps, fuel),
            ));
            assert(node_html(n, env, comps, fuel) == nodes_html(s, env, comps, fuel));
            match nodes_html(c.body@, penv, comps, (fuel - 1) as nat) {
                Ok(h) => {
                    assert(h + Seq::<char>::empty() =~= h);
                },
                Err(_) => {},
            }
        },
        _ => {},
    }
}

} // verus!
