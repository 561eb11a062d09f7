//! The routes of an application, gathered once at start-up.

use vstd::prelude::*;
use crate::hateoas::Method;
use crate::path::{
    distinct_names, normalized, param_names, segs_view, template_ok, template_text, wf_segments,
    RouteTemplate, Segment, TemplateError,
};

verus! {

/// A route: its compiled template and method, and what serves it.
pub struct RouteDefinition<H> {
    pub route: RouteTemplate,
    pub handler: H,
}

impl<H> RouteDefinition<H> {
    /// A route on `path`; fails where the template does not compile or names a
    /// parameter twice.
    pub fn new(path: &str, method: Method, handler: H) -> (r: Result<RouteDefinition<H>, TemplateError>)
        ensures
            !template_ok(path@) <==> (r matches Err(e) && e != TemplateError::DuplicateParameter),
            (r matches Err(TemplateError::DuplicateParameter)) <==> (template_ok(path@) && exists|
                segs: Seq<Segment>,
            |
                wf_segments(segs) && #[trigger] template_text(segs) == path@ && !distinct_names(
                    param_names(segs),
                )),
            r matches Ok(d) ==> d.route.wf() && d.route.template@ == path@ && d.route.method == method
                && d.handler == handler,
    {
        match RouteTemplate::parse(path, method) {
            Ok(route) => Ok(RouteDefinition { route, handler }),
            Err(e) => Err(e),
        }
    }
}

/// Every route of an application, in the order registered. Routes are never
/// removed and two routes may share a path and method.
pub struct Registry<H> {
    pub routes: Vec<RouteDefinition<H>>,
}

impl<H> Registry<H> {
    pub open spec fn wf(&self) -> bool {
        forall|i: int| 0 <= i < self.routes@.len() ==> (#[trigger] self.routes@[i]).route.wf()
    }

    pub fn new() -> (r: Registry<H>)
        ensures
            r.routes@.len() == 0,
            r.wf(),
    {
        Registry { routes: Vec::new() }
    }

    /// Adds a route after the others.
    pub fn register(&mut self, def: RouteDefinition<H>)
        requires
            old(self).wf(),
            def.route.wf(),
        ensures
            final(self).routes@ == old(self).routes@.push(def),
            final(self).wf(),
    {
        self.routes.push(def);
    }

    /// Every route, in registration order.
    pub fn all(&self) -> (r: &Vec<RouteDefinition<H>>)
        ensures
            r@ == self.routes@,
    {
        &self.routes
    }

    /// Each route's path in the router's syntax, with its method, in registration order.
    pub fn router_paths(&self) -> (r: Vec<(String, Method)>)
        ensures
            r@.len() == self.routes@.len(),
            forall|i: int|
                0 <= i < r@.len() ==> (#[trigger] r@[i]).0@ == normalized(
                    segs_view(self.routes@[i].route.segments@),
                ) && r@[i].1 == self.routes@[i].route.method,
    {
        let mut r: Vec<(String, Method)> = Vec::new();
        let mut k: usize = 0;
        while k < self.routes.len()
            invariant
                k <= self.routes@.len(),
                r@.len() == k,
                forall|i: int|
                    0 <= i < k ==> (#[trigger] r@[i]).0@ == normalized(
                        segs_view(self.routes@[i].route.segments@),
                    ) && r@[i].1 == self.routes@[i].route.method,
            decreases self.routes.len() - k,
        {
            let d = &self.routes[k];
            r.push((d.route.router_path(), d.route.method));
            k = k + 1;
        }
        r
    }
}

} // verus!
