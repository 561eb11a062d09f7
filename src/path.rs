//! Path templates: `/tasks/{id}/toggle` split into literal text and named
//! parameters, the router's form of a template, and reverse URLs.

use vstd::prelude::*;
use crate::hateoas::{Endpoint, Method};
use crate::text::{chars_of, push_str, string_of};

verus! {

/// One piece of a path template.
#[derive(Clone, Debug)]
pub enum PathSegment {
    /// Text that stands in every concrete path.
    Literal(String),
    /// A `{name}` placeholder.
    Parameter(String),
}

/// A path segment as characters.
pub enum Segment {
    Literal(Seq<char>),
    Parameter(Seq<char>),
}

impl View for PathSegment {
    type V = Segment;

    open spec fn view(&self) -> Segment {
        match self {
            PathSegment::Literal(s) => Segment::Literal(s@),
            PathSegment::Parameter(n) => Segment::Parameter(n@),
        }
    }
}

pub open spec fn segs_view(v: Seq<PathSegment>) -> Seq<Segment> {
    v.map_values(|s: PathSegment| s@)
}

/// How a segment is written in a template.
pub open spec fn seg_text(s: Segment) -> Seq<char> {
    match s {
        Segment::Literal(l) => l,
        Segment::Parameter(n) => seq!['{'] + n + seq!['}'],
    }
}

/// The template that a sequence of segments spells.
pub open spec fn template_text(segs: Seq<Segment>) -> Seq<char>
    decreases segs.len(),
{
    if segs.len() == 0 {
        Seq::empty()
    } else {
        template_text(segs.drop_last()) + seg_text(segs.last())
    }
}

pub open spec fn no_braces(s: Seq<char>) -> bool {
    forall|i: int| 0 <= i < s.len() ==> s[i] != '{' && s[i] != '}'
}

/// Literals and names are non-empty and hold no brace; no two literals are adjacent.
pub open spec fn wf_segments(segs: Seq<Segment>) -> bool {
    &&& forall|i: int| 0 <= i < segs.len() ==> seg_wf(#[trigger] segs[i])
    &&& forall|i: int|
        0 <= i < segs.len() - 1 ==> !(#[trigger] segs[i] is Literal && segs[i + 1] is Literal)
}

/// Reads `s` from position `i` on; `open` is where the placeholder being read began.
/// Every `{` must be closed by a `}` before the next brace, with a name between.
pub open spec fn scan_from(s: Seq<char>, i: int, open: Option<int>) -> bool
    decreases s.len() - i,
{
    if i < 0 || i >= s.len() {
        open is None
    } else if s[i] == '{' {
        open is None && scan_from(s, i + 1, Some(i))
    } else if s[i] == '}' {
        match open {
            Option::Some(j) => i > j + 1 && scan_from(s, i + 1, None),
            Option::None => false,
        }
    } else {
        scan_from(s, i + 1, open)
    }
}

/// A template whose braces pair up around non-empty names.
pub open spec fn template_ok(s: Seq<char>) -> bool {
    scan_from(s, 0, None)
}

/// The parameter names of a template, left to right.
pub open spec fn param_names(segs: Seq<Segment>) -> Seq<Seq<char>>
    decreases segs.len(),
{
    if segs.len() == 0 {
        Seq::empty()
    } else {
        match segs.last() {
            Segment::Literal(_) => param_names(segs.drop_last()),
            Segment::Parameter(n) => param_names(segs.drop_last()).push(n),
        }
    }
}

/// The concrete path: each parameter replaced, in order, by the next value.
pub open spec fn fill(segs: Seq<Segment>, args: Seq<Seq<char>>) -> Seq<char>
    decreases segs.len(),
{
    if segs.len() == 0 {
        Seq::empty()
    } else {
        match segs.last() {
            Segment::Literal(l) => fill(segs.drop_last(), args) + l,
            Segment::Parameter(_) => fill(segs.drop_last(), args.drop_last()) + args.last(),
        }
    }
}

/// The router's form of a template: each `{name}` written `:name`.
pub open spec fn normalized(segs: Seq<Segment>) -> Seq<char>
    decreases segs.len(),
{
    if segs.len() == 0 {
        Seq::empty()
    } else {
        normalized(segs.drop_last()) + match segs.last() {
            Segment::Literal(l) => l,
            Segment::Parameter(n) => seq![':'] + n,
        }
    }
}

/// Why a template does not compile.
#[derive(Clone, Copy, Debug, PartialEq, Eq, Structural)]
pub enum TemplateError {
    /// A `{` inside a placeholder, or one never closed.
    UnmatchedOpen,
    /// A `}` outside any placeholder.
    UnmatchedClose,
    /// `{}`.
    EmptyName,
    /// A name that stands twice in one template.
    DuplicateParameter,
}

proof fn lemma_text_push(segs: Seq<Segment>, s: Segment)
    ensures
        template_text(segs.push(s)) == template_text(segs) + seg_text(s),
        param_names(segs.push(s)) == match s {
            Segment::Literal(_) => param_names(segs),
            Segment::Parameter(n) => param_names(segs).push(n),
        },
        normalized(segs.push(s)) == normalized(segs) + match s {
            Segment::Literal(l) => l,
            Segment::Parameter(n) => seq![':'] + n,
        },
{
    assert(segs.push(s).drop_last() =~= segs);
}

pub open spec fn seg_wf(s: Segment) -> bool {
    match s {
        Segment::Literal(l) => l.len() > 0 && no_braces(l),
        Segment::Parameter(n) => n.len() > 0 && no_braces(n),
    }
}

proof fn lemma_wf_push(segs: Seq<Segment>, s: Segment)
    requires
        wf_segments(segs),
        seg_wf(s),
        s is Literal ==> segs.len() == 0 || segs.last() is Parameter,
    ensures
        wf_segments(segs.push(s)),
{
    let t = segs.push(s);
    assert forall|i: int| 0 <= i < t.len() - 1 implies !(#[trigger] t[i] is Literal && t[i + 1] is Literal) by {
        if i < segs.len() - 1 {
            assert(t[i] == segs[i] && t[i + 1] == segs[i + 1]);
        }
    }
    assert forall|i: int| 0 <= i < t.len() implies seg_wf(#[trigger] t[i]) by {
        if i < segs.len() {
            assert(t[i] == segs[i]);
        }
    }
}

/// Splits a template into literal text and `{name}` parameters.
#[verifier::rlimit(40)]
pub fn compile_template(template: &str) -> (r: Result<Vec<PathSegment>, TemplateError>)
    ensures
        r is Ok <==> template_ok(template@),
        r matches Err(e) ==> e != TemplateError::DuplicateParameter,
        r matches Ok(v) ==> wf_segments(segs_view(v@)) && template_text(segs_view(v@)) == template@,
{
    let cs = chars_of(template);
    let n = cs.len();
    let mut v: Vec<PathSegment> = Vec::new();
    let mut open: Option<usize> = None;
    let mut lit_start: usize = 0;
    let mut i: usize = 0;
    while i < n
        invariant
            cs@ == template@,
            n == cs.len(),
            i <= n,
            template_ok(template@) == scan_from(cs@, i as int, match open {
                Option::Some(j) => Option::Some(j as int),
                Option::None => Option::None,
            }),
            wf_segments(segs_view(v@)),
            match open {
                Option::None => {
                    &&& lit_start <= i
                    &&& template_text(segs_view(v@)) == cs@.subrange(0, lit_start as int)
                    &&& no_braces(cs@.subrange(lit_start as int, i as int))
                    &&& v@.len() > 0 ==> segs_view(v@).last() is Parameter
                },
                Option::Some(j) => {
                    &&& j < i
                    &&& cs@[j as int] == '{'
                    &&& template_text(segs_view(v@)) == cs@.subrange(0, j as int)
                    &&& no_braces(cs@.subrange(j + 1, i as int))
                },
            },
        decreases n - i,
    {
        let c = cs[i];
        let ghost old_v = segs_view(v@);
        if c == '{' {
            match open {
                Some(_) => {
                    return Err(TemplateError::UnmatchedOpen);
                },
                None => {
                    if lit_start < i {
                        let lit = string_of(&cs, lit_start, i);
                        v.push(PathSegment::Literal(lit));
                        proof {
                            assert(segs_view(v@) =~= old_v.push(Segment::Literal(lit@)));
                            lemma_text_push(old_v, Segment::Literal(lit@));
                            lemma_wf_push(old_v, Segment::Literal(lit@));
                            assert(cs@.subrange(0, i as int) =~= cs@.subrange(0, lit_start as int) + cs@.subrange(lit_start as int, i as int));
                        }
                    }
                    open = Some(i);
                    proof {
                        assert(no_braces(cs@.subrange(i + 1, i + 1)));
                    }
                },
            }
        } else if c == '}' {
            match open {
                Some(j) => {
                    if i == j + 1 {
                        return Err(TemplateError::EmptyName);
                    }
                    let name = string_of(&cs, j + 1, i);
                    v.push(PathSegment::Parameter(name));
                    proof {
                        assert(segs_view(v@) =~= old_v.push(Segment::Parameter(name@)));
                        lemma_text_push(old_v, Segment::Parameter(name@));
                        lemma_wf_push(old_v, Segment::Parameter(name@));
                        assert(cs@.subrange(0, i + 1) =~= cs@.subrange(0, j as int) + (seq!['{'] + name@ + seq!['}']));
                    }
                    open = None;
                    lit_start = i + 1;
                    proof {
                        assert(no_braces(cs@.subrange(i + 1, i + 1)));
                    }
                },
                None => {
                    return Err(TemplateError::UnmatchedClose);
                },
            }
        } else {
            proof {
                match open {
                    Option::None => {
                        assert(cs@.subrange(lit_start as int, i + 1) =~= cs@.subrange(lit_start as int, i as int).push(c));
                    },
                    Option::Some(j) => {
                        assert(cs@.subrange(j + 1, i + 1) =~= cs@.subrange(j + 1, i as int).push(c));
                    },
                }
            }
        }
        i = i + 1;
    }
    match open {
        Some(_) => Err(TemplateError::UnmatchedOpen),
        None => {
            let ghost old_v = segs_view(v@);
            if lit_start < n {
                let lit = string_of(&cs, lit_start, n);
                v.push(PathSegment::Literal(lit));
                proof {
                    assert(segs_view(v@) =~= old_v.push(Segment::Literal(lit@)));
                    lemma_text_push(old_v, Segment::Literal(lit@));
                    lemma_wf_push(old_v, Segment::Literal(lit@));
                }
            }
            proof {
                assert(cs@.subrange(0, n as int) =~= cs@);
                assert(cs@.subrange(0, lit_start as int) + cs@.subrange(lit_start as int, n as int) =~= cs@);
            }
            Ok(v)
        },
    }
}

pub open spec fn strs_view(v: Seq<String>) -> Seq<Seq<char>> {
    v.map_values(|a: String| a@)
}

/// No name stands twice.
pub open spec fn distinct_names(names: Seq<Seq<char>>) -> bool {
    forall|i: int, j: int| 0 <= i < j < names.len() ==> names[i] != names[j]
}

proof fn lemma_take_last(segs: Seq<Segment>, k: int)
    requires
        0 <= k < segs.len(),
    ensures
        segs.take(k + 1).drop_last() == segs.take(k),
        segs.take(k + 1).last() == segs[k],
{
    assert(segs.take(k + 1).drop_last() =~= segs.take(k));
}

proof fn lemma_names_prefix(segs: Seq<Segment>, k: int)
    requires
        0 <= k <= segs.len(),
    ensures
        param_names(segs.take(k)).len() <= param_names(segs).len(),
    decreases segs.len() - k,
{
    if k < segs.len() {
        lemma_names_prefix(segs, k + 1);
        lemma_take_last(segs, k);
    } else {
        assert(segs.take(k) =~= segs);
    }
}

/// The concrete path of a template: the parameters replaced, in order, by `args`.
pub fn reverse_url(segs: &Vec<PathSegment>, args: &Vec<String>) -> (r: String)
    requires
        args.len() == param_names(segs_view(segs@)).len(),
    ensures
        r@ == fill(segs_view(segs@), strs_view(args@)),
{
    let ghost sv = segs_view(segs@);
    let ghost av = strs_view(args@);
    let mut r = String::new();
    let mut a: usize = 0;
    let mut k: usize = 0;
    while k < segs.len()
        invariant
            sv == segs_view(segs@),
            av == strs_view(args@),
            args.len() == param_names(sv).len(),
            k <= segs.len(),
            a == param_names(sv.take(k as int)).len(),
            r@ == fill(sv.take(k as int), av.take(a as int)),
        decreases segs.len() - k,
    {
        proof {
            lemma_take_last(sv, k as int);
            lemma_names_prefix(sv, k + 1);
        }
        match &segs[k] {
            PathSegment::Literal(l) => {
                push_str(&mut r, l.as_str());
            },
            PathSegment::Parameter(_) => {
                push_str(&mut r, args[a].as_str());
                proof {
                    assert(av.take(a + 1).drop_last() =~= av.take(a as int));
                }
                a = a + 1;
            },
        }
        k = k + 1;
    }
    proof {
        assert(sv.take(k as int) =~= sv);
        assert(av.take(a as int) =~= av);
    }
    r
}

/// The router's form of a template, with `:name` for each `{name}`.
pub fn normalized_path(segs: &Vec<PathSegment>) -> (r: String)
    ensures
        r@ == normalized(segs_view(segs@)),
{
    let ghost sv = segs_view(segs@);
    let mut r = String::new();
    let mut k: usize = 0;
    while k < segs.len()
        invariant
            sv == segs_view(segs@),
            k <= segs.len(),
            r@ == normalized(sv.take(k as int)),
        decreases segs.len() - k,
    {
        proof {
            lemma_take_last(sv, k as int);
        }
        match &segs[k] {
            PathSegment::Literal(l) => {
                push_str(&mut r, l.as_str());
            },
            PathSegment::Parameter(n) => {
                push_str(&mut r, ":");
                push_str(&mut r, n.as_str());
                proof {
                    assert(":"@ + n@ =~= seq![':'] + n@) by {
                        reveal_strlit(":");
                    }
                }
            },
        }
        k = k + 1;
    }
    proof {
        assert(sv.take(k as int) =~= sv);
    }
    r
}

/// The parameter names of a template, left to right.
pub fn parameters(segs: &Vec<PathSegment>) -> (r: Vec<String>)
    ensures
        strs_view(r@) == param_names(segs_view(segs@)),
{
    let ghost sv = segs_view(segs@);
    let mut r: Vec<String> = Vec::new();
    let mut k: usize = 0;
    while k < segs.len()
        invariant
            sv == segs_view(segs@),
            k <= segs.len(),
            strs_view(r@) == param_names(sv.take(k as int)),
        decreases segs.len() - k,
    {
        proof {
            lemma_take_last(sv, k as int);
        }
        match &segs[k] {
            PathSegment::Literal(_) => {},
            PathSegment::Parameter(n) => {
                let ghost before = r@;
                r.push(n.clone());
                proof {
                    assert(strs_view(r@) =~= strs_view(before).push(n@));
                }
            },
        }
        k = k + 1;
    }
    proof {
        assert(sv.take(k as int) =~= sv);
    }
    r
}

/// Whether no name stands twice in `names`.
pub fn all_distinct(names: &Vec<String>) -> (r: bool)
    ensures
        r == distinct_names(strs_view(names@)),
{
    let ghost nv = strs_view(names@);
    let mut i: usize = 0;
    while i < names.len()
        invariant
            nv == strs_view(names@),
            i <= names.len(),
            forall|p: int, q: int| 0 <= p < q < nv.len() && p < i ==> nv[p] != nv[q],
        decreases names.len() - i,
    {
        let mut j: usize = i + 1;
        while j < names.len()
            invariant
                nv == strs_view(names@),
                i < names.len(),
                i + 1 <= j <= names.len(),
                forall|p: int, q: int| 0 <= p < q < nv.len() && p < i ==> nv[p] != nv[q],
                forall|q: int| i < q < j ==> nv[i as int] != nv[q],
            decreases names.len() - j,
        {
            if names[i] == names[j] {
                assert(nv[i as int] == nv[j as int]);
                return false;
            }
            j = j + 1;
        }
        i = i + 1;
    }
    true
}

/// A route's path template and method, compiled.
#[derive(Clone, Debug)]
pub struct RouteTemplate {
    pub template: String,
    pub method: Method,
    pub segments: Vec<PathSegment>,
}

impl RouteTemplate {
    /// The segments spell the template, are well formed, and name each parameter once.
    pub open spec fn wf(&self) -> bool {
        &&& wf_segments(segs_view(self.segments@))
        &&& template_text(segs_view(self.segments@)) == self.template@
        &&& distinct_names(param_names(segs_view(self.segments@)))
    }

    /// Compiles a route's template; a name may stand only once.
    pub fn parse(template: &str, method: Method) -> (r: Result<RouteTemplate, TemplateError>)
        ensures
            !template_ok(template@) <==> (r matches Err(e) && e != TemplateError::DuplicateParameter),
            r matches Ok(rt) ==> rt.wf() && rt.template@ == template@ && rt.method == method,
            (r matches Err(TemplateError::DuplicateParameter)) <==> (template_ok(template@)
                && exists|segs: Seq<Segment>|
                wf_segments(segs) && #[trigger] template_text(segs) == template@ && !distinct_names(
                    param_names(segs),
                )),
    {
        match compile_template(template) {
            Err(e) => Err(e),
            Ok(segments) => {
                let names = parameters(&segments);
                if all_distinct(&names) {
                    proof {
                        let v = segs_view(segments@);
                        assert forall|w: Seq<Segment>|
                            wf_segments(w) && #[trigger] template_text(w) == template@ implies distinct_names(
                            param_names(w),
                        ) by {
                            law_decomposition_unique(w, v);
                        }
                    }
                    Ok(RouteTemplate { template: String::from_str(template), method, segments })
                } else {
                    assert(wf_segments(segs_view(segments@)) && template_text(segs_view(segments@))
                        == template@ && !distinct_names(param_names(segs_view(segments@))));
                    Err(TemplateError::DuplicateParameter)
                }
            },
        }
    }

    /// How many arguments a concrete path of this route takes.
    pub fn param_count(&self) -> (r: usize)
        ensures
            r == param_names(segs_view(self.segments@)).len(),
    {
        parameters(&self.segments).len()
    }

    /// The path in the router's syntax.
    pub fn router_path(&self) -> (r: String)
        ensures
            r@ == normalized(segs_view(self.segments@)),
    {
        normalized_path(&self.segments)
    }

    /// The endpoint of this route with `args` put in place of the parameters, in order.
    pub fn endpoint(&self, args: &Vec<String>) -> (r: Endpoint)
        requires
            args.len() == param_names(segs_view(self.segments@)).len(),
        ensures
            r.path@ == fill(segs_view(self.segments@), strs_view(args@)),
            r.method == self.method,
    {
        let path = reverse_url(&self.segments, args);
        Endpoint { path, method: self.method }
    }
}

proof fn lemma_fill_no_braces(segs: Seq<Segment>, args: Seq<Seq<char>>)
    requires
        wf_segments(segs),
        args.len() == param_names(segs).len(),
        forall|i: int| 0 <= i < args.len() ==> no_braces(#[trigger] args[i]),
    ensures
        no_braces(fill(segs, args)),
    decreases segs.len(),
{
    if segs.len() > 0 {
        let d = segs.drop_last();
        assert(wf_segments(d)) by {
            assert forall|i: int| 0 <= i < d.len() implies seg_wf(#[trigger] d[i]) by {
                assert(d[i] == segs[i]);
            }
            assert forall|i: int| 0 <= i < d.len() - 1 implies !(#[trigger] d[i] is Literal && d[i + 1] is Literal) by {
                assert(d[i] == segs[i] && d[i + 1] == segs[i + 1]);
            }
        }
        assert(seg_wf(segs[segs.len() - 1]));
        match segs.last() {
            Segment::Literal(l) => {
                lemma_fill_no_braces(d, args);
            },
            Segment::Parameter(_) => {
                let da = args.drop_last();
                assert forall|i: int| 0 <= i < da.len() implies no_braces(#[trigger] da[i]) by {
                    assert(da[i] == args[i]);
                }
                lemma_fill_no_braces(d, da);
                assert(no_braces(args[args.len() - 1]));
            },
        }
    }
}

proof fn lemma_scan_no_braces(s: Seq<char>, i: int)
    requires
        no_braces(s),
        0 <= i,
    ensures
        scan_from(s, i, None),
    decreases s.len() - i,
{
    if i < s.len() {
        lemma_scan_no_braces(s, i + 1);
    }
}

proof fn lemma_brace_free_text(v: Seq<Segment>)
    requires
        wf_segments(v),
        no_braces(template_text(v)),
    ensures
        v.len() <= 1,
        forall|i: int| 0 <= i < v.len() ==> #[trigger] v[i] is Literal,
    decreases v.len(),
{
    if v.len() > 0 {
        let d = v.drop_last();
        let t = template_text(v);
        let pre = template_text(d);
        assert(t == pre + seg_text(v.last()));
        if v.last() is Parameter {
            assert(t[pre.len() as int] == '{');
        }
        assert(no_braces(pre)) by {
            assert forall|k: int| 0 <= k < pre.len() implies pre[k] != '{' && pre[k] != '}' by {
                assert(pre[k] == t[k]);
            }
        }
        assert(wf_segments(d)) by {
            assert forall|i: int| 0 <= i < d.len() implies seg_wf(#[trigger] d[i]) by {
                assert(d[i] == v[i]);
            }
            assert forall|i: int| 0 <= i < d.len() - 1 implies !(#[trigger] d[i] is Literal && d[i + 1] is Literal) by {
                assert(d[i] == v[i] && d[i + 1] == v[i + 1]);
            }
        }
        lemma_brace_free_text(d);
        if d.len() == 1 {
            assert(v[0] == d[0]);
            assert(v[0] is Literal && v[1] is Literal);
        }
        assert forall|i: int| 0 <= i < v.len() implies #[trigger] v[i] is Literal by {
            if i < d.len() {
                assert(v[i] == d[i]);
            }
        }
    }
}

proof fn lemma_single_literal(v: Seq<Segment>, u: Seq<char>)
    requires
        wf_segments(v),
        template_text(v) == u,
        no_braces(u),
    ensures
        v.len() <= 1,
        v.len() == 1 ==> v[0] == Segment::Literal(u),
{
    lemma_brace_free_text(v);
    if v.len() == 1 {
        assert(v.drop_last() =~= Seq::<Segment>::empty());
        assert(v[0] is Literal);
        assert(template_text(v) == template_text(v.drop_last()) + seg_text(v[0]));
        assert(template_text(v.drop_last()) =~= Seq::<char>::empty());
    }
}

/// A reverse URL built from values without braces reads back as a valid template
/// made of one literal: the template's literal text with the values put in place
/// of its parameters, in template order.
pub proof fn law_reverse_url_reparses(segs: Seq<Segment>, args: Seq<Seq<char>>)
    requires
        wf_segments(segs),
        args.len() == param_names(segs).len(),
        forall|i: int| 0 <= i < args.len() ==> no_braces(#[trigger] args[i]),
    ensures
        template_ok(fill(segs, args)),
        forall|v: Seq<Segment>|
            wf_segments(v) && #[trigger] template_text(v) == fill(segs, args) ==> v.len() <= 1 && (
            v.len() == 1 ==> v[0] == Segment::Literal(fill(segs, args))),
{
    let u = fill(segs, args);
    lemma_fill_no_braces(segs, args);
    lemma_scan_no_braces(u, 0);
    assert forall|v: Seq<Segment>| wf_segments(v) && #[trigger] template_text(v) == u implies v.len()
        <= 1 && (v.len() == 1 ==> v[0] == Segment::Literal(u)) by {
        lemma_single_literal(v, u);
    }
}

proof fn lemma_wf_drop_last(segs: Seq<Segment>)
    requires
        wf_segments(segs),
        segs.len() > 0,
    ensures
        wf_segments(segs.drop_last()),
        seg_wf(segs.last()),
        segs.len() > 1 && segs.last() is Literal ==> segs.drop_last().last() is Parameter,
{
    let d = segs.drop_last();
    assert forall|i: int| 0 <= i < d.len() implies seg_wf(#[trigger] d[i]) by {
        assert(d[i] == segs[i]);
    }
    assert forall|i: int| 0 <= i < d.len() - 1 implies !(#[trigger] d[i] is Literal && d[i + 1] is Literal) by {
        assert(d[i] == segs[i] && d[i + 1] == segs[i + 1]);
    }
    assert(seg_wf(segs[segs.len() - 1]));
    if segs.len() > 1 {
        assert(!(segs[segs.len() - 2] is Literal && segs[segs.len() - 1] is Literal));
    }
}

proof fn lemma_text_len(segs: Seq<Segment>)
    requires
        wf_segments(segs),
    ensures
        template_text(segs).len() >= segs.len(),
    decreases segs.len(),
{
    if segs.len() > 0 {
        lemma_wf_drop_last(segs);
        lemma_text_len(segs.drop_last());
    }
}

/// The last character of a template's text tells how its last segment ends.
proof fn lemma_text_last(segs: Seq<Segment>)
    requires
        wf_segments(segs),
        segs.len() > 0,
    ensures
        template_text(segs) == template_text(segs.drop_last()) + seg_text(segs.last()),
        template_text(segs).len() > 0,
        segs.last() is Parameter <==> template_text(segs).last() == '}',
{
    lemma_wf_drop_last(segs);
    let t = template_text(segs);
    let st = seg_text(segs.last());
    assert(t.last() == st.last());
    match segs.last() {
        Segment::Literal(l) => {
            assert(st.last() == l[l.len() - 1]);
        },
        Segment::Parameter(_) => {},
    }
}

/// A template has at most one well-formed decomposition into segments.
pub proof fn law_decomposition_unique(a: Seq<Segment>, b: Seq<Segment>)
    requires
        wf_segments(a),
        wf_segments(b),
        template_text(a) == template_text(b),
    ensures
        a == b,
    decreases a.len() + b.len(),
{
    let t = template_text(a);
    if a.len() == 0 || b.len() == 0 {
        lemma_text_len(a);
        lemma_text_len(b);
        if a.len() > 0 {
            lemma_text_last(a);
        }
        if b.len() > 0 {
            lemma_text_last(b);
        }
        assert(a =~= b);
    } else {
        lemma_text_last(a);
        lemma_text_last(b);
        lemma_wf_drop_last(a);
        lemma_wf_drop_last(b);
        let pa = template_text(a.drop_last());
        let pb = template_text(b.drop_last());
        let sa = seg_text(a.last());
        let sb = seg_text(b.last());
        assert(pa + sa == pb + sb);
        assert(sa.len() == sb.len()) by {
            lemma_seg_split(a, b);
            lemma_seg_split(b, a);
        }
        assert(sa =~= t.subrange(pa.len() as int, t.len() as int));
        assert(sb =~= t.subrange(pb.len() as int, t.len() as int));
        assert(pa =~= t.subrange(0, pa.len() as int));
        assert(pb =~= t.subrange(0, pb.len() as int));
        assert(a.last() == b.last()) by {
            match (a.last(), b.last()) {
                (Segment::Literal(x), Segment::Literal(y)) => {
                    assert(x =~= y);
                },
                (Segment::Parameter(x), Segment::Parameter(y)) => {
                    assert(x =~= sa.subrange(1, sa.len() - 1));
                    assert(y =~= sb.subrange(1, sb.len() - 1));
                },
                _ => {},
            }
        }
        law_decomposition_unique(a.drop_last(), b.drop_last());
        assert(a =~= a.drop_last().push(a.last()));
        assert(b =~= b.drop_last().push(b.last()));
    }
}

/// Of two decompositions of one text, the first's last segment is not the shorter
/// (so, by symmetry, the two last segments are equally long).
proof fn lemma_seg_split(a: Seq<Segment>, b: Seq<Segment>)
    requires
        wf_segments(a),
        wf_segments(b),
        a.len() > 0,
        b.len() > 0,
        template_text(a) == template_text(b),
    ensures
        seg_text(a.last()).len() >= seg_text(b.last()).len(),
{
    if seg_text(a.last()).len() < seg_text(b.last()).len() {
        lemma_text_last(a);
        lemma_text_last(b);
        lemma_wf_drop_last(a);
        lemma_wf_drop_last(b);
        let t = template_text(a);
        let sa = seg_text(a.last());
        let sb = seg_text(b.last());
        let pb = template_text(b.drop_last());
        let k = t.len() - sa.len() - 1;
        assert(t =~= template_text(a.drop_last()) + sa);
        assert(t =~= pb + sb);
        assert(k >= pb.len());
        assert(t[k] == sb[k - pb.len()]);
        match (a.last(), b.last()) {
            (Segment::Literal(la), Segment::Literal(lb)) => {
                assert(a.len() > 1) by {
                    if a.len() == 1 {
                        assert(a.drop_last() =~= Seq::<Segment>::empty());
                    }
                }
                lemma_text_last(a.drop_last());
                assert(t[k] == template_text(a.drop_last()).last());
                assert(lb[k - pb.len()] == t[k]);
            },
            (Segment::Literal(la), Segment::Parameter(nb)) => {
                assert(t.last() == la[la.len() - 1]);
            },
            (Segment::Parameter(na), Segment::Literal(lb)) => {
                assert(t.last() == lb[lb.len() - 1]);
            },
            (Segment::Parameter(na), Segment::Parameter(nb)) => {
                assert(t[k + 1] == '{');
                assert(t[k + 1] == sb[k + 1 - pb.len()]);
                assert(sb[k + 1 - pb.len()] == nb[k - pb.len()]);
            },
        }
    }
}

} // verus!
