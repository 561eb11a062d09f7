//! Endpoints and the HTMX attribute builder.

use vstd::prelude::*;
use crate::render::text_eq;
use crate::text::{ascii_upper, chars_of, push_char, push_str, to_upper_ascii};

verus! {

/// HTTP method of an endpoint.
#[derive(Clone, Copy, Debug, PartialEq, Eq, Structural)]
pub enum Method {
    Get,
    Post,
    Put,
    Patch,
    Delete,
}

/// Upper-case name of a method.
pub open spec fn method_name(m: Method) -> Seq<char> {
    match m {
        Method::Get => "GET"@,
        Method::Post => "POST"@,
        Method::Put => "PUT"@,
        Method::Patch => "PATCH"@,
        Method::Delete => "DELETE"@,
    }
}

/// Name of the `hx-*` attribute that issues a request with a method.
pub open spec fn method_attr(m: Method) -> Seq<char> {
    match m {
        Method::Get => "hx-get"@,
        Method::Post => "hx-post"@,
        Method::Put => "hx-put"@,
        Method::Patch => "hx-patch"@,
        Method::Delete => "hx-delete"@,
    }
}

/// A declared method name with ASCII letters in upper case.
pub open spec fn upper_name(s: Seq<char>) -> Seq<char> {
    s.map_values(|c: char| ascii_upper(c))
}

/// The method that a declared name stands for, whatever its case; POST where
/// it names none.
pub open spec fn declared_method(s: Seq<char>) -> Method {
    let u = upper_name(s);
    if u == "GET"@ {
        Method::Get
    } else if u == "PUT"@ {
        Method::Put
    } else if u == "PATCH"@ {
        Method::Patch
    } else if u == "DELETE"@ {
        Method::Delete
    } else {
        Method::Post
    }
}

impl Method {
    /// The method of a route declaration such as `method = "delete"`.
    pub fn from_declared(s: &str) -> (r: Method)
        ensures
            r == declared_method(s@),
    {
        let cs = chars_of(s);
        let mut u = String::new();
        let mut i: usize = 0;
        while i < cs.len()
            invariant
                cs@ == s@,
                i <= cs.len(),
                u@ == upper_name(cs@.take(i as int)),
            decreases cs.len() - i,
        {
            let c = to_upper_ascii(cs[i]);
            push_char(&mut u, c);
            proof {
                assert(upper_name(cs@.take(i + 1)) =~= upper_name(cs@.take(i as int)).push(c));
            }
            i = i + 1;
        }
        proof {
            assert(cs@.take(i as int) =~= cs@);
        }
        if text_eq(u.as_str(), "GET") {
            Method::Get
        } else if text_eq(u.as_str(), "PUT") {
            Method::Put
        } else if text_eq(u.as_str(), "PATCH") {
            Method::Patch
        } else if text_eq(u.as_str(), "DELETE") {
            Method::Delete
        } else {
            Method::Post
        }
    }

    /// Upper-case name, as in a request line.
    pub fn as_str(&self) -> (r: &'static str)
        ensures
            r@ == method_name(*self),
    {
        match self {
            Method::Get => "GET",
            Method::Post => "POST",
            Method::Put => "PUT",
            Method::Patch => "PATCH",
            Method::Delete => "DELETE",
        }
    }

    /// The `hx-*` attribute name for this method.
    pub fn attr_name(&self) -> (r: &'static str)
        ensures
            r@ == method_attr(*self),
    {
        match self {
            Method::Get => "hx-get",
            Method::Post => "hx-post",
            Method::Put => "hx-put",
            Method::Patch => "hx-patch",
            Method::Delete => "hx-delete",
        }
    }
}

/// A path and the method that reaches it.
#[derive(Clone, Debug)]
pub struct Endpoint {
    pub path: String,
    pub method: Method,
}

impl Endpoint {
    pub fn new(path: &str, method: Method) -> (r: Endpoint)
        ensures
            r.path@ == path@,
            r.method == method,
    {
        Endpoint { path: String::from_str(path), method }
    }

    pub fn get(path: &str) -> (r: Endpoint)
        ensures
            r.path@ == path@,
            r.method == Method::Get,
    {
        Endpoint::new(path, Method::Get)
    }

    pub fn post(path: &str) -> (r: Endpoint)
        ensures
            r.path@ == path@,
            r.method == Method::Post,
    {
        Endpoint::new(path, Method::Post)
    }

    pub fn delete(path: &str) -> (r: Endpoint)
        ensures
            r.path@ == path@,
            r.method == Method::Delete,
    {
        Endpoint::new(path, Method::Delete)
    }

    /// A GET endpoint on a fixed path.
    pub fn get_const(path: &'static str) -> (r: Endpoint)
        ensures
            r.path@ == path@,
            r.method == Method::Get,
    {
        Endpoint::new(path, Method::Get)
    }

    /// A POST endpoint on a fixed path.
    pub fn post_const(path: &'static str) -> (r: Endpoint)
        ensures
            r.path@ == path@,
            r.method == Method::Post,
    {
        Endpoint::new(path, Method::Post)
    }

    /// A DELETE endpoint on a fixed path.
    pub fn delete_const(path: &'static str) -> (r: Endpoint)
        ensures
            r.path@ == path@,
            r.method == Method::Delete,
    {
        Endpoint::new(path, Method::Delete)
    }
}

/// How HTMX places a response relative to its target.
#[derive(Clone, Copy, Debug, PartialEq, Eq, Structural)]
pub enum Swap {
    InnerHtml,
    OuterHtml,
    BeforeBegin,
    AfterBegin,
    BeforeEnd,
    AfterEnd,
    Delete,
    NoSwap,
}

/// The `hx-swap` value of a strategy.
pub open spec fn swap_name(s: Swap) -> Seq<char> {
    match s {
        Swap::InnerHtml => "innerHTML"@,
        Swap::OuterHtml => "outerHTML"@,
        Swap::BeforeBegin => "beforebegin"@,
        Swap::AfterBegin => "afterbegin"@,
        Swap::BeforeEnd => "beforeend"@,
        Swap::AfterEnd => "afterend"@,
        Swap::Delete => "delete"@,
        Swap::NoSwap => "none"@,
    }
}

impl Swap {
    pub fn as_str(&self) -> (r: &'static str)
        ensures
            r@ == swap_name(*self),
    {
        match self {
            Swap::InnerHtml => "innerHTML",
            Swap::OuterHtml => "outerHTML",
            Swap::BeforeBegin => "beforebegin",
            Swap::AfterBegin => "afterbegin",
            Swap::BeforeEnd => "beforeend",
            Swap::AfterEnd => "afterend",
            Swap::Delete => "delete",
            Swap::NoSwap => "none",
        }
    }
}

/// The element that receives a response.
#[derive(Clone, Debug)]
pub enum Target {
    This,
    Parent,
    Closest(String),
    Selector(String),
}

/// The `hx-target` value of a target; the parent is the closest list item.
pub open spec fn target_text(t: Target) -> Seq<char> {
    match t {
        Target::This => "this"@,
        Target::Parent => "closest li"@,
        Target::Closest(sel) => "closest "@ + sel@,
        Target::Selector(sel) => sel@,
    }
}

impl Target {
    /// The `hx-target` value.
    pub fn render(&self) -> (r: String)
        ensures
            r@ == target_text(*self),
    {
        match self {
            Target::This => String::from_str("this"),
            Target::Parent => String::from_str("closest li"),
            Target::Closest(sel) => {
                let mut r = String::from_str("closest ");
                push_str(&mut r, sel.as_str());
                r
            },
            Target::Selector(sel) => sel.clone(),
        }
    }
}

/// A request that an element issues: endpoint, optional target, optional swap.
#[derive(Clone, Debug)]
pub struct HtmxAction {
    pub endpoint: Endpoint,
    pub target: Option<Target>,
    pub swap: Option<Swap>,
}

/// `name="value"`.
pub open spec fn attr_text(name: Seq<char>, value: Seq<char>) -> Seq<char> {
    name + "=\""@ + value + "\""@
}

/// The attributes of an action: the method's attribute with the path, then
/// the target and the swap where set, separated by single spaces.
pub open spec fn action_text(a: HtmxAction) -> Seq<char> {
    attr_text(method_attr(a.endpoint.method), a.endpoint.path@)
        + match a.target {
            Option::Some(t) => " "@ + attr_text("hx-target"@, target_text(t)),
            Option::None => Seq::empty(),
        }
        + match a.swap {
            Option::Some(s) => " "@ + attr_text("hx-swap"@, swap_name(s)),
            Option::None => Seq::empty(),
        }
}

fn push_attr(out: &mut String, name: &str, value: &str)
    ensures
        final(out)@ == old(out)@ + attr_text(name@, value@),
{
    push_str(out, name);
    push_str(out, "=\"");
    push_str(out, value);
    push_str(out, "\"");
}

impl HtmxAction {
    pub fn new(endpoint: Endpoint) -> (r: HtmxAction)
        ensures
            r == (HtmxAction { endpoint, target: None, swap: None }),
    {
        HtmxAction { endpoint, target: None, swap: None }
    }

    /// Sets the element that receives the response.
    pub fn target(self, target: Target) -> (r: HtmxAction)
        ensures
            r == (HtmxAction { target: Some(target), ..self }),
    {
        HtmxAction { target: Some(target), ..self }
    }

    /// Targets the elements that a CSS selector picks.
    pub fn into(self, selector: &str) -> (r: HtmxAction)
        ensures
            r.endpoint == self.endpoint,
            r.swap == self.swap,
            r.target matches Some(Target::Selector(s)) && s@ == selector@,
    {
        HtmxAction { target: Some(Target::Selector(String::from_str(selector))), ..self }
    }

    /// Sets the swap strategy.
    pub fn swap(self, swap: Swap) -> (r: HtmxAction)
        ensures
            r == (HtmxAction { swap: Some(swap), ..self }),
    {
        HtmxAction { swap: Some(swap), ..self }
    }

    /// Appends the response inside the target, after its last child.
    pub fn append(self) -> (r: HtmxAction)
        ensures
            r == (HtmxAction { swap: Some(Swap::BeforeEnd), ..self }),
    {
        HtmxAction { swap: Some(Swap::BeforeEnd), ..self }
    }

    /// Prepends the response inside the target, before its first child.
    pub fn prepend(self) -> (r: HtmxAction)
        ensures
            r == (HtmxAction { swap: Some(Swap::AfterBegin), ..self }),
    {
        HtmxAction { swap: Some(Swap::AfterBegin), ..self }
    }

    /// The attribute string of this action.
    pub fn build(&self) -> (r: String)
        ensures
            r@ == action_text(*self),
    {
        let mut out = String::new();
        push_attr(&mut out, self.endpoint.method.attr_name(), self.endpoint.path.as_str());
        match &self.target {
            Some(t) => {
                push_str(&mut out, " ");
                let v = t.render();
                push_attr(&mut out, "hx-target", v.as_str());
            },
            None => {},
        }
        match &self.swap {
            Some(s) => {
                push_str(&mut out, " ");
                push_attr(&mut out, "hx-swap", s.as_str());
            },
            None => {},
        }
        out
    }
}

/// A GET action on the endpoint's path, for loading content.
pub fn loads(endpoint: Endpoint) -> (r: HtmxAction)
    ensures
        r == (HtmxAction {
            endpoint: Endpoint { path: endpoint.path, method: Method::Get },
            target: None,
            swap: None,
        }),
{
    HtmxAction::new(Endpoint { path: endpoint.path, method: Method::Get })
}

/// An action that sends a request with the endpoint's own method.
pub fn submits(endpoint: Endpoint) -> (r: HtmxAction)
    ensures
        r == (HtmxAction { endpoint, target: None, swap: None }),
{
    HtmxAction::new(endpoint)
}

/// A DELETE action on the endpoint's path that replaces the closest list item
/// with the response.
pub fn removes(endpoint: Endpoint) -> (r: HtmxAction)
    ensures
        r == (HtmxAction {
            endpoint: Endpoint { path: endpoint.path, method: Method::Delete },
            target: Some(Target::Parent),
            swap: Some(Swap::OuterHtml),
        }),
{
    HtmxAction::new(Endpoint { path: endpoint.path, method: Method::Delete }).swap(Swap::OuterHtml).target(
        Target::Parent,
    )
}

} // verus!
