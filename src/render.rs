//! Rendering a markup tree to HTML text.
//!
//! Text values are escaped wherever they are put out; `Value::Html` is the one
//! value whose content goes out as it is. Boolean attributes (`checked`,
//! `disabled`, `selected`, `readonly`) are written bare when their condition
//! holds and left out otherwise.

use vstd::prelude::*;
use crate::escape::{escape_html, escaped};
use crate::markup::{nodes_size, node_size, Attribute, Component, Expr, Node, Prop, Value};
use crate::page::{decimal, push_decimal, Fragment};
use crate::text::{chars_of, push_str};

verus! {

/// Why rendering failed.
#[derive(Clone, Copy, Debug, PartialEq, Eq, Structural)]
pub enum RenderError {
    /// A variable that no binding names.
    UnknownVariable,
    /// A field that the value does not have.
    UnknownField,
    /// A list or a record where text was needed.
    NotText,
    /// A condition that is not a boolean.
    NotBoolean,
    /// A loop over something that is not a list.
    NotList,
    /// An invocation of a component that the table does not hold.
    UnknownComponent,
    /// Component invocations nested deeper than allowed.
    TooDeep,
}

/// Variables in scope; a later binding hides an earlier one of the same name.
pub open spec fn env_view(env: Seq<(&String, &Value)>) -> Seq<(String, Value)> {
    env.map_values(|b: (&String, &Value)| (*b.0, *b.1))
}

/// The value bound last to `name`.
pub open spec fn lookup(env: Seq<(String, Value)>, name: Seq<char>) -> Option<Value>
    decreases env.len(),
{
    if env.len() == 0 {
        None
    } else if env.last().0@ == name {
        Some(env.last().1)
    } else {
        lookup(env.drop_last(), name)
    }
}

/// The value of the last field called `name`.
pub open spec fn field(fields: Seq<(String, Value)>, name: Seq<char>) -> Option<Value>
    decreases fields.len(),
{
    if fields.len() == 0 {
        None
    } else if fields.last().0@ == name {
        Some(fields.last().1)
    } else {
        field(fields.drop_last(), name)
    }
}

/// Follows field names from a value.
pub open spec fn walk(v: Value, path: Seq<String>) -> Result<Value, RenderError>
    decreases path.len(),
{
    if path.len() == 0 {
        Ok(v)
    } else {
        match v {
            Value::Record(fs) => match field(fs@, path[0]@) {
                Option::Some(x) => walk(x, path.drop_first()),
                Option::None => Err(RenderError::UnknownField),
            },
            _ => Err(RenderError::UnknownField),
        }
    }
}

/// The value of an expression.
pub open spec fn eval(e: Expr, env: Seq<(String, Value)>) -> Result<Value, RenderError> {
    match e {
        Expr::Lit(v) => Ok(v),
        Expr::Path(p) => if p@.len() == 0 {
            Err(RenderError::UnknownVariable)
        } else {
            match lookup(env, p@[0]@) {
                Option::Some(v) => walk(v, p@.drop_first()),
                Option::None => Err(RenderError::UnknownVariable),
            }
        },
    }
}

pub open spec fn bool_text(b: bool) -> Seq<char> {
    if b {
        "true"@
    } else {
        "false"@
    }
}

/// The plain text of a scalar value; lists and records have none.
pub open spec fn value_text(v: Value) -> Option<Seq<char>> {
    match v {
        Value::Text(s) => Some(s@),
        Value::Int(n) => Some(decimal(n as int)),
        Value::Bool(b) => Some(bool_text(b)),
        Value::Html(f) => Some(f.0@),
        _ => None,
    }
}

/// A value as HTML: text escaped, markup kept.
pub open spec fn value_html(v: Value) -> Option<Seq<char>> {
    match v {
        Value::Text(s) => Some(escaped(s@)),
        _ => value_text(v),
    }
}

/// Attributes whose presence says true.
pub open spec fn is_bool_attr(name: Seq<char>) -> bool {
    name == "checked"@ || name == "disabled"@ || name == "selected"@ || name == "readonly"@
}

pub open spec fn prepend(a: Seq<char>, r: Result<Seq<char>, RenderError>) -> Result<
    Seq<char>,
    RenderError,
> {
    match r {
        Ok(b) => Ok(a + b),
        Err(e) => Err(e),
    }
}

/// `r1` followed by `r2`; the first failure wins.
pub open spec fn then(r1: Result<Seq<char>, RenderError>, r2: Result<Seq<char>, RenderError>) -> Result<
    Seq<char>,
    RenderError,
> {
    match r1 {
        Ok(a) => prepend(a, r2),
        Err(e) => Err(e),
    }
}

/// One attribute as it stands in a tag, with its leading space.
pub open spec fn attr_html(a: Attribute, env: Seq<(String, Value)>) -> Result<Seq<char>, RenderError> {
    match a {
        Attribute::Literal { name, value: Option::None } => Ok(" "@ + name@),
        Attribute::Literal { name, value: Option::Some(e) } => match eval(e, env) {
            Err(x) => Err(x),
            Ok(v) => if is_bool_attr(name@) {
                match v {
                    Value::Bool(b) => Ok(
                        if b {
                            " "@ + name@
                        } else {
                            Seq::empty()
                        },
                    ),
                    _ => Err(RenderError::NotBoolean),
                }
            } else {
                match value_text(v) {
                    Option::Some(t) => Ok(" "@ + name@ + "=\""@ + escaped(t) + "\""@),
                    Option::None => Err(RenderError::NotText),
                }
            },
        },
        Attribute::Spread(e) => match eval(e, env) {
            Err(x) => Err(x),
            Ok(v) => match value_text(v) {
                Option::Some(t) => Ok(" "@ + t),
                Option::None => Err(RenderError::NotText),
            },
        },
    }
}

pub open spec fn attrs_html(attrs: Seq<Attribute>, env: Seq<(String, Value)>) -> Result<
    Seq<char>,
    RenderError,
>
    decreases attrs.len(),
{
    if attrs.len() == 0 {
        Ok(Seq::empty())
    } else {
        then(attr_html(attrs[0], env), attrs_html(attrs.drop_first(), env))
    }
}

/// The component registered last under `name`.
pub open spec fn find_component(comps: Seq<Component>, name: Seq<char>) -> Option<Component>
    decreases comps.len(),
{
    if comps.len() == 0 {
        None
    } else if comps.last().name@ == name {
        Some(comps.last())
    } else {
        find_component(comps.drop_last(), name)
    }
}

/// The properties of an invocation as the bindings of the component's body.
pub open spec fn props_env(props: Seq<Prop>, env: Seq<(String, Value)>) -> Result<
    Seq<(String, Value)>,
    RenderError,
>
    decreases props.len(),
{
    if props.len() == 0 {
        Ok(Seq::empty())
    } else {
        match eval(props[0].value, env) {
            Err(x) => Err(x),
            Ok(v) => match props_env(props.drop_first(), env) {
                Err(x) => Err(x),
                Ok(rest) => Ok(seq![(props[0].name, v)] + rest),
            },
        }
    }
}

/// The HTML of one node. `fuel` bounds how deep component invocations nest.
pub open spec fn node_html(n: Node, env: Seq<(String, Value)>, comps: Seq<Component>, fuel: nat) -> Result<
    Seq<char>,
    RenderError,
>
    decreases fuel, node_size(n), 0nat,
{
    match n {
        Node::Element { tag, attributes, children, self_closing } => prepend(
            "<"@ + tag@,
            then(
                attrs_html(attributes@, env),
                if self_closing {
                    Ok(" />"@)
                } else {
                    prepend(
                        ">"@,
                        then(nodes_html(children@, env, comps, fuel), Ok("</"@ + tag@ + ">"@)),
                    )
                },
            ),
        ),
        Node::Text(s) => Ok(s@),
        Node::RawText(s) => Ok(s@),
        Node::Comment(s) => Ok("<!--"@ + s@ + "-->"@),
        Node::Doctype(s) => Ok("<!DOCTYPE "@ + s@ + ">"@),
        Node::Block(e) => match eval(e, env) {
            Err(x) => Err(x),
            Ok(v) => match value_html(v) {
                Option::Some(h) => Ok(h),
                Option::None => Err(RenderError::NotText),
            },
        },
        Node::For { binding, iterable, body } => match eval(iterable, env) {
            Err(x) => Err(x),
            Ok(Value::List(items)) => each_html(body@, binding, items@, env, comps, fuel),
            Ok(_) => Err(RenderError::NotList),
        },
        Node::If { condition, then_body, else_body } => match eval(condition, env) {
            Err(x) => Err(x),
            Ok(Value::Bool(b)) => if b {
                nodes_html(then_body@, env, comps, fuel)
            } else {
                match else_body {
                    Option::Some(e) => nodes_html(e@, env, comps, fuel),
                    Option::None => Ok(Seq::empty()),
                }
            },
            Ok(_) => Err(RenderError::NotBoolean),
        },
        Node::Component { name, props } => match find_component(comps, name@) {
            Option::None => Err(RenderError::UnknownComponent),
            Option::Some(c) => if fuel == 0 {
                Err(RenderError::TooDeep)
            } else {
                match props_env(props@, env) {
                    Err(x) => Err(x),
                    Ok(penv) => nodes_html(c.body@, penv, comps, (fuel - 1) as nat),
                }
            },
        },
        Node::Fragment(children) => nodes_html(children@, env, comps, fuel),
    }
}

/// The HTML of a sequence of nodes, in order.
pub open spec fn nodes_html(
    s: Seq<Node>,
    env: Seq<(String, Value)>,
    comps: Seq<Component>,
    fuel: nat,
) -> Result<Seq<char>, RenderError>
    decreases fuel, nodes_size(s), 0nat,
{
    if s.len() == 0 {
        Ok(Seq::empty())
    } else {
        proof {
            reveal_with_fuel(nodes_size, 2);
        }
        then(node_html(s[0], env, comps, fuel), nodes_html(s.drop_first(), env, comps, fuel))
    }
}

/// The body once for each item, with the item bound to `binding`.
pub open spec fn each_html(
    body: Seq<Node>,
    binding: String,
    items: Seq<Value>,
    env: Seq<(String, Value)>,
    comps: Seq<Component>,
    fuel: nat,
) -> Result<Seq<char>, RenderError>
    decreases fuel, nodes_size(body), items.len(),
{
    if items.len() == 0 {
        Ok(Seq::empty())
    } else {
        then(
            nodes_html(body, env.push((binding, items[0])), comps, fuel),
            each_html(body, binding, items.drop_first(), env, comps, fuel),
        )
    }
}

pub open spec fn res_view(r: Result<String, RenderError>) -> Result<Seq<char>, RenderError> {
    match r {
        Ok(s) => Ok(s@),
        Err(e) => Err(e),
    }
}

/// Whether two strings hold the same characters.
pub fn text_eq(a: &str, b: &str) -> (r: bool)
    ensures
        r == (a@ == b@),
{
    let x = chars_of(a);
    let y = chars_of(b);
    if x.len() != y.len() {
        return false;
    }
    let mut i: usize = 0;
    while i < x.len()
        invariant
            x@ == a@,
            y@ == b@,
            x.len() == y.len(),
            i <= x.len(),
            forall|j: int| 0 <= j < i ==> x@[j] == y@[j],
        decreases x.len() - i,
    {
        if x[i] != y[i] {
            return false;
        }
        i = i + 1;
    }
    assert(x@ =~= y@);
    true
}

/// Whether `name` is one of the boolean attributes.
pub fn is_bool_attr_name(name: &str) -> (r: bool)
    ensures
        r == is_bool_attr(name@),
{
    text_eq(name, "checked") || text_eq(name, "disabled") || text_eq(name, "selected") || text_eq(
        name,
        "readonly",
    )
}

fn lookup_var<'a>(env: &Vec<(&'a String, &'a Value)>, name: &String) -> (r: Option<&'a Value>)
    ensures
        lookup(env_view(env@), name@) == match r {
            Option::Some(v) => Option::Some(*v),
            Option::None => Option::None,
        },
{
    let ghost ev = env_view(env@);
    let mut k: usize = env.len();
    proof {
        assert(ev.take(k as int) =~= ev);
    }
    while k > 0
        invariant
            k <= env.len(),
            ev == env_view(env@),
            lookup(ev, name@) == lookup(ev.take(k as int), name@),
        decreases k,
    {
        let b = env[k - 1];
        proof {
            assert(ev.take(k as int).drop_last() =~= ev.take(k - 1));
        }
        if *b.0 == *name {
            return Some(b.1);
        }
        k = k - 1;
    }
    None
}

fn field_of<'a>(fields: &'a Vec<(String, Value)>, name: &String) -> (r: Option<&'a Value>)
    ensures
        field(fields@, name@) == match r {
            Option::Some(v) => Option::Some(*v),
            Option::None => Option::None,
        },
{
    let mut k: usize = fields.len();
    proof {
        assert(fields@.take(k as int) =~= fields@);
    }
    while k > 0
        invariant
            k <= fields.len(),
            field(fields@, name@) == field(fields@.take(k as int), name@),
        decreases k,
    {
        let f = &fields[k - 1];
        proof {
            assert(fields@.take(k as int).drop_last() =~= fields@.take(k - 1));
        }
        if f.0 == *name {
            return Some(&f.1);
        }
        k = k - 1;
    }
    None
}

fn find_comp<'a>(comps: &'a Vec<Component>, name: &String) -> (r: Option<&'a Component>)
    ensures
        find_component(comps@, name@) == match r {
            Option::Some(c) => Option::Some(*c),
            Option::None => Option::None,
        },
{
    let mut k: usize = comps.len();
    proof {
        assert(comps@.take(k as int) =~= comps@);
    }
    while k > 0
        invariant
            k <= comps.len(),
            find_component(comps@, name@) == find_component(comps@.take(k as int), name@),
        decreases k,
    {
        let c = &comps[k - 1];
        proof {
            assert(comps@.take(k as int).drop_last() =~= comps@.take(k - 1));
        }
        if c.name == *name {
            return Some(c);
        }
        k = k - 1;
    }
    None
}

/// Evaluates an expression; the result borrows from the markup or the bindings.
pub fn eval_expr<'a>(e: &'a Expr, env: &Vec<(&'a String, &'a Value)>) -> (r: Result<
    &'a Value,
    RenderError,
>)
    ensures
        eval(*e, env_view(env@)) == match r {
            Ok(v) => Ok(*v),
            Err(x) => Err(x),
        },
{
    match e {
        Expr::Lit(v) => Ok(v),
        Expr::Path(p) => {
            if p.len() == 0 {
                return Err(RenderError::UnknownVariable);
            }
            match lookup_var(env, &p[0]) {
                None => Err(RenderError::UnknownVariable),
                Some(v0) => {
                    let mut cur: &'a Value = v0;
                    let mut i: usize = 1;
                    proof {
                        assert(p@.drop_first() =~= p@.skip(1));
                        assert(eval(*e, env_view(env@)) == walk(*v0, p@.drop_first()));
                    }
                    while i < p.len()
                        invariant
                            1 <= i <= p.len(),
                            eval(*e, env_view(env@)) == walk(*cur, p@.skip(i as int)),
                        decreases p.len() - i,
                    {
                        proof {
                            assert(p@.skip(i as int).drop_first() =~= p@.skip(i + 1));
                            assert(p@.skip(i as int)[0] == p@[i as int]);
                        }
                        match cur {
                            Value::Record(fs) => match field_of(fs, &p[i]) {
                                Some(x) => {
                                    cur = x;
                                },
                                None => {
                                    assert(walk(*cur, p@.skip(i as int)) == Err::<Value, RenderError>(RenderError::UnknownField));
                                    return Err(RenderError::UnknownField);
                                },
                            },
                            _ => {
                                assert(walk(*cur, p@.skip(i as int)) == Err::<Value, RenderError>(RenderError::UnknownField));
                                return Err(RenderError::UnknownField);
                            },
                        }
                        i = i + 1;
                    }
                    proof {
                        assert(p@.skip(i as int) =~= Seq::<String>::empty());
                    }
                    Ok(cur)
                },
            }
        },
    }
}

/// The plain text of a scalar value.
pub fn text_of(v: &Value) -> (r: Option<String>)
    ensures
        match r {
            Option::Some(s) => value_text(*v) == Option::Some(s@),
            Option::None => value_text(*v) is None,
        },
{
    match v {
        Value::Text(s) => Some(s.clone()),
        Value::Int(n) => {
            let mut o = String::new();
            push_decimal(&mut o, *n);
            Some(o)
        },
        Value::Bool(b) => if *b {
            Some(String::from_str("true"))
        } else {
            Some(String::from_str("false"))
        },
        Value::Html(f) => Some(f.0.clone()),
        _ => None,
    }
}

/// A value as HTML: text escaped, markup kept as it is.
pub fn html_of(v: &Value) -> (r: Option<String>)
    ensures
        match r {
            Option::Some(s) => value_html(*v) == Option::Some(s@),
            Option::None => value_html(*v) is None,
        },
{
    match v {
        Value::Text(s) => Some(escape_html(s.as_str())),
        _ => text_of(v),
    }
}

proof fn lemma_prepend_then(a: Seq<char>, b: Seq<char>, r: Result<Seq<char>, RenderError>)
    ensures
        prepend(a, then(Ok(b), r)) == prepend(a + b, r),
{
    match r {
        Ok(c) => {
            assert(a + (b + c) =~= (a + b) + c);
        },
        Err(_) => {},
    }
}

proof fn lemma_prepend_empty(r: Result<Seq<char>, RenderError>)
    ensures
        prepend(Seq::empty(), r) == r,
{
    match r {
        Ok(c) => {
            assert(Seq::<char>::empty() + c =~= c);
        },
        Err(_) => {},
    }
}

proof fn lemma_nodes_size_pos(s: Seq<Node>)
    ensures
        nodes_size(s) >= 1,
{
    if s.len() > 0 {
        assert(node_size(s[0]) >= 1);
    }
}

proof fn lemma_node_size_lt(s: Seq<Node>, k: int)
    requires
        0 <= k < s.len(),
    ensures
        node_size(s[k]) < nodes_size(s),
    decreases k,
{
    lemma_nodes_size_pos(s.drop_first());
    if k > 0 {
        lemma_node_size_lt(s.drop_first(), k - 1);
        assert(s.drop_first()[k - 1] == s[k]);
    }
}

fn render_attr<'a>(a: &'a Attribute, env: &Vec<(&'a String, &'a Value)>) -> (r: Result<
    String,
    RenderError,
>)
    ensures
        res_view(r) == attr_html(*a, env_view(env@)),
{
    match a {
        Attribute::Literal { name, value: None } => {
            let mut o = String::from_str(" ");
            push_str(&mut o, name.as_str());
            Ok(o)
        },
        Attribute::Literal { name, value: Some(e) } => match eval_expr(e, env) {
            Err(x) => Err(x),
            Ok(v) => if is_bool_attr_name(name.as_str()) {
                match v {
                    Value::Bool(b) => if *b {
                        let mut o = String::from_str(" ");
                        push_str(&mut o, name.as_str());
                        Ok(o)
                    } else {
                        Ok(String::new())
                    },
                    _ => Err(RenderError::NotBoolean),
                }
            } else {
                match text_of(v) {
                    Some(t) => {
                        let mut o = String::from_str(" ");
                        push_str(&mut o, name.as_str());
                        push_str(&mut o, "=\"");
                        let esc = escape_html(t.as_str());
                        push_str(&mut o, esc.as_str());
                        push_str(&mut o, "\"");
                        Ok(o)
                    },
                    None => Err(RenderError::NotText),
                }
            },
        },
        Attribute::Spread(e) => match eval_expr(e, env) {
            Err(x) => Err(x),
            Ok(v) => match text_of(v) {
                Some(t) => {
                    let mut o = String::from_str(" ");
                    push_str(&mut o, t.as_str());
                    Ok(o)
                },
                None => Err(RenderError::NotText),
            },
        },
    }
}

fn render_attrs<'a>(attrs: &'a Vec<Attribute>, env: &Vec<(&'a String, &'a Value)>) -> (r: Result<
    String,
    RenderError,
>)
    ensures
        res_view(r) == attrs_html(attrs@, env_view(env@)),
{
    let ghost ev = env_view(env@);
    let mut out = String::new();
    let mut k: usize = 0;
    proof {
        assert(attrs@.skip(0) =~= attrs@);
        lemma_prepend_empty(attrs_html(attrs@, ev));
    }
    while k < attrs.len()
        invariant
            k <= attrs.len(),
            ev == env_view(env@),
            attrs_html(attrs@, ev) == prepend(out@, attrs_html(attrs@.skip(k as int), ev)),
        decreases attrs.len() - k,
    {
        proof {
            assert(attrs@.skip(k as int).drop_first() =~= attrs@.skip(k + 1));
        }
        match render_attr(&attrs[k], env) {
            Err(e) => {
                return Err(e);
            },
            Ok(t) => {
                proof {
                    lemma_prepend_then(out@, t@, attrs_html(attrs@.skip(k + 1), ev));
                }
                push_str(&mut out, t.as_str());
            },
        }
        k = k + 1;
    }
    proof {
        assert(attrs@.skip(k as int) =~= Seq::<Attribute>::empty());
        assert(out@ + Seq::<char>::empty() =~= out@);
    }
    Ok(out)
}

fn with_binding<'a>(env: &Vec<(&'a String, &'a Value)>, name: &'a String, v: &'a Value) -> (r: Vec<
    (&'a String, &'a Value),
>)
    ensures
        env_view(r@) == env_view(env@).push((*name, *v)),
{
    let mut r: Vec<(&'a String, &'a Value)> = Vec::new();
    let mut k: usize = 0;
    while k < env.len()
        invariant
            k <= env.len(),
            r@ == env@.take(k as int),
        decreases env.len() - k,
    {
        r.push(env[k]);
        proof {
            assert(env@.take(k + 1) =~= env@.take(k as int).push(env@[k as int]));
        }
        k = k + 1;
    }
    proof {
        assert(env@.take(k as int) =~= env@);
    }
    let ghost before = r@;
    r.push((name, v));
    proof {
        assert(env_view(r@) =~= env_view(before).push((*name, *v)));
    }
    r
}

pub open spec fn prepend_env(a: Seq<(String, Value)>, r: Result<Seq<(String, Value)>, RenderError>) -> Result<
    Seq<(String, Value)>,
    RenderError,
> {
    match r {
        Ok(b) => Ok(a + b),
        Err(e) => Err(e),
    }
}

fn eval_props<'a>(props: &'a Vec<Prop>, env: &Vec<(&'a String, &'a Value)>) -> (r: Result<
    Vec<(&'a String, &'a Value)>,
    RenderError,
>)
    ensures
        props_env(props@, env_view(env@)) == match r {
            Ok(pe) => Ok(env_view(pe@)),
            Err(x) => Err(x),
        },
{
    let ghost ev = env_view(env@);
    let mut pe: Vec<(&'a String, &'a Value)> = Vec::new();
    let mut k: usize = 0;
    proof {
        assert(props@.skip(0) =~= props@);
        match props_env(props@, ev) {
            Ok(b) => {
                assert(env_view(pe@) + b =~= b);
            },
            Err(_) => {},
        }
    }
    while k < props.len()
        invariant
            k <= props.len(),
            ev == env_view(env@),
            props_env(props@, ev) == prepend_env(env_view(pe@), props_env(props@.skip(k as int), ev)),
        decreases props.len() - k,
    {
        proof {
            assert(props@.skip(k as int).drop_first() =~= props@.skip(k + 1));
        }
        let p = &props[k];
        match eval_expr(&p.value, env) {
            Err(x) => {
                return Err(x);
            },
            Ok(v) => {
                let ghost before = env_view(pe@);
                pe.push((&p.name, v));
                proof {
                    assert(env_view(pe@) =~= before.push((p.name, *v)));
                    match props_env(props@.skip(k + 1), ev) {
                        Ok(b) => {
                            assert(before + (seq![(p.name, *v)] + b) =~= before.push((p.name, *v)) + b);
                        },
                        Err(_) => {},
                    }
                }
            },
        }
        k = k + 1;
    }
    proof {
        assert(props@.skip(k as int) =~= Seq::<Prop>::empty());
        assert(env_view(pe@) + Seq::<(String, Value)>::empty() =~= env_view(pe@));
    }
    Ok(pe)
}

/// Renders one node.
pub fn render_node<'a>(
    n: &'a Node,
    env: &Vec<(&'a String, &'a Value)>,
    comps: &'a Vec<Component>,
    fuel: usize,
) -> (r: Result<String, RenderError>)
    ensures
        res_view(r) == node_html(*n, env_view(env@), comps@, fuel as nat),
    decreases fuel, node_size(*n), 0nat,
{
    match n {
        Node::Element { tag, attributes, children, self_closing } => {
            let mut out = String::from_str("<");
            push_str(&mut out, tag.as_str());
            let a = match render_attrs(attributes, env) {
                Err(e) => {
                    return Err(e);
                },
                Ok(a) => a,
            };
            push_str(&mut out, a.as_str());
            if *self_closing {
                push_str(&mut out, " />");
                proof {
                    assert(out@ =~= ("<"@ + tag@) + (a@ + " />"@));
                }
            } else {
                push_str(&mut out, ">");
                let c = match render_nodes(children, env, comps, fuel) {
                    Err(e) => {
                        return Err(e);
                    },
                    Ok(c) => c,
                };
                push_str(&mut out, c.as_str());
                push_str(&mut out, "</");
                push_str(&mut out, tag.as_str());
                push_str(&mut out, ">");
                proof {
                    assert(out@ =~= ("<"@ + tag@) + (a@ + (">"@ + (c@ + ("</"@ + tag@ + ">"@)))));
                }
            }
            Ok(out)
        },
        Node::Text(s) => Ok(s.clone()),
        Node::RawText(s) => Ok(s.clone()),
        Node::Comment(s) => {
            let mut out = String::from_str("<!--");
            push_str(&mut out, s.as_str());
            push_str(&mut out, "-->");
            Ok(out)
        },
        Node::Doctype(s) => {
            let mut out = String::from_str("<!DOCTYPE ");
            push_str(&mut out, s.as_str());
            push_str(&mut out, ">");
            Ok(out)
        },
        Node::Block(e) => match eval_expr(e, env) {
            Err(x) => Err(x),
            Ok(v) => match html_of(v) {
                Some(h) => Ok(h),
                None => Err(RenderError::NotText),
            },
        },
        Node::For { binding, iterable, body } => match eval_expr(iterable, env) {
            Err(x) => Err(x),
            Ok(v) => match v {
                Value::List(items) => render_each(body, binding, items, env, comps, fuel),
                _ => Err(RenderError::NotList),
            },
        },
        Node::If { condition, then_body, else_body } => match eval_expr(condition, env) {
            Err(x) => Err(x),
            Ok(v) => match v {
                Value::Bool(b) => if *b {
                    render_nodes(then_body, env, comps, fuel)
                } else {
                    match else_body {
                        Some(e) => render_nodes(e, env, comps, fuel),
                        None => Ok(String::new()),
                    }
                },
                _ => Err(RenderError::NotBoolean),
            },
        },
        Node::Component { name, props } => match find_comp(comps, name) {
            None => Err(RenderError::UnknownComponent),
            Some(c) => if fuel == 0 {
                Err(RenderError::TooDeep)
            } else {
                match eval_props(props, env) {
                    Err(x) => Err(x),
                    Ok(penv) => render_nodes(&c.body, &penv, comps, fuel - 1),
                }
            },
        },
        Node::Fragment(children) => render_nodes(children, env, comps, fuel),
    }
}

/// Renders nodes one after the other.
pub fn render_nodes<'a>(
    nodes: &'a Vec<Node>,
    env: &Vec<(&'a String, &'a Value)>,
    comps: &'a Vec<Component>,
    fuel: usize,
) -> (r: Result<String, RenderError>)
    ensures
        res_view(r) == nodes_html(nodes@, env_view(env@), comps@, fuel as nat),
    decreases fuel, nodes_size(nodes@), 0nat,
{
    let ghost ev = env_view(env@);
    let mut out = String::new();
    let mut k: usize = 0;
    proof {
        assert(nodes@.skip(0) =~= nodes@);
        lemma_prepend_empty(nodes_html(nodes@, ev, comps@, fuel as nat));
    }
    while k < nodes.len()
        invariant
            k <= nodes.len(),
            ev == env_view(env@),
            nodes_html(nodes@, ev, comps@, fuel as nat) == prepend(
                out@,
                nodes_html(nodes@.skip(k as int), ev, comps@, fuel as nat),
            ),
        decreases nodes.len() - k,
    {
        proof {
            lemma_node_size_lt(nodes@, k as int);
            assert(nodes@.skip(k as int).drop_first() =~= nodes@.skip(k + 1));
            assert(nodes@.skip(k as int)[0] == nodes@[k as int]);
        }
        match render_node(&nodes[k], env, comps, fuel) {
            Err(e) => {
                return Err(e);
            },
            Ok(t) => {
                proof {
                    lemma_prepend_then(out@, t@, nodes_html(nodes@.skip(k + 1), ev, comps@, fuel as nat));
                }
                push_str(&mut out, t.as_str());
            },
        }
        k = k + 1;
    }
    proof {
        assert(nodes@.skip(k as int) =~= Seq::<Node>::empty());
        assert(out@ + Seq::<char>::empty() =~= out@);
    }
    Ok(out)
}

/// Renders `body` once for each item, with the item bound to `binding`.
pub fn render_each<'a>(
    body: &'a Vec<Node>,
    binding: &'a String,
    items: &'a Vec<Value>,
    env: &Vec<(&'a String, &'a Value)>,
    comps: &'a Vec<Component>,
    fuel: usize,
) -> (r: Result<String, RenderError>)
    ensures
        res_view(r) == each_html(body@, *binding, items@, env_view(env@), comps@, fuel as nat),
    decreases fuel, nodes_size(body@), items@.len(),
{
    let ghost ev = env_view(env@);
    let mut out = String::new();
    let mut k: usize = 0;
    proof {
        assert(items@.skip(0) =~= items@);
        lemma_prepend_empty(each_html(body@, *binding, items@, ev, comps@, fuel as nat));
    }
    while k < items.len()
        invariant
            k <= items.len(),
            ev == env_view(env@),
            each_html(body@, *binding, items@, ev, comps@, fuel as nat) == prepend(
                out@,
                each_html(body@, *binding, items@.skip(k as int), ev, comps@, fuel as nat),
            ),
        decreases items.len() - k,
    {
        proof {
            assert(items@.skip(k as int).drop_first() =~= items@.skip(k + 1));
            assert(items@.skip(k as int)[0] == items@[k as int]);
        }
        let inner = with_binding(env, binding, &items[k]);
        match render_nodes(body, &inner, comps, fuel) {
            Err(e) => {
                return Err(e);
            },
            Ok(t) => {
                proof {
                    lemma_prepend_then(
                        out@,
                        t@,
                        each_html(body@, *binding, items@.skip(k + 1), ev, comps@, fuel as nat),
                    );
                }
                push_str(&mut out, t.as_str());
            },
        }
        k = k + 1;
    }
    proof {
        assert(items@.skip(k as int) =~= Seq::<Value>::empty());
        assert(out@ + Seq::<char>::empty() =~= out@);
    }
    Ok(out)
}

fn bindings_of<'a>(vars: &'a Vec<(String, Value)>) -> (r: Vec<(&'a String, &'a Value)>)
    ensures
        env_view(r@) == vars@,
{
    let mut r: Vec<(&'a String, &'a Value)> = Vec::new();
    let mut k: usize = 0;
    while k < vars.len()
        invariant
            k <= vars.len(),
            env_view(r@) == vars@.take(k as int),
        decreases vars.len() - k,
    {
        let ghost before = r@;
        let b = &vars[k];
        r.push((&b.0, &b.1));
        proof {
            assert(env_view(r@) =~= env_view(before).push((b.0, b.1)));
            assert(vars@[k as int] == (b.0, b.1));
            assert(env_view(r@) =~= vars@.take(k + 1));
        }
        k = k + 1;
    }
    proof {
        assert(vars@.take(k as int) =~= vars@);
    }
    r
}

/// Renders markup with `vars` in scope and `comps` as the component table;
/// component invocations nest at most `depth` deep.
pub fn render<'a>(
    nodes: &'a Vec<Node>,
    vars: &'a Vec<(String, Value)>,
    comps: &'a Vec<Component>,
    depth: usize,
) -> (r: Result<Fragment, RenderError>)
    ensures
        nodes_html(nodes@, vars@, comps@, depth as nat) == match r {
            Ok(f) => Ok(f.0@),
            Err(e) => Err(e),
        },
{
    let env = bindings_of(vars);
    match render_nodes(nodes, &env, comps, depth) {
        Ok(s) => Ok(Fragment(s)),
        Err(e) => Err(e),
    }
}

} // verus!
