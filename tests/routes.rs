use acacia::hateoas::Method;
use acacia::path::{compile_template, normalized_path, parameters, reverse_url, PathSegment, RouteTemplate, TemplateError};
use acacia::registry::{Registry, RouteDefinition};
use acacia::text::{to_screaming_case, to_snake_case};

fn lit(s: &str) -> String {
    s.to_string()
}

#[test]
fn compile_splits_literals_and_parameters() {
    let segs = compile_template("/tasks/{id}/toggle").unwrap();
    assert_eq!(segs.len(), 3);
    assert!(matches!(&segs[0], PathSegment::Literal(s) if s == "/tasks/"));
    assert!(matches!(&segs[1], PathSegment::Parameter(s) if s == "id"));
    assert!(matches!(&segs[2], PathSegment::Literal(s) if s == "/toggle"));
}

#[test]
fn compile_adjacent_parameters() {
    let segs = compile_template("{a}{b}").unwrap();
    assert_eq!(segs.len(), 2);
    assert_eq!(parameters(&segs), vec![lit("a"), lit("b")]);
}

#[test]
fn compile_errors() {
    assert_eq!(compile_template("/x/{id").unwrap_err(), TemplateError::UnmatchedOpen);
    assert_eq!(compile_template("/x/id}").unwrap_err(), TemplateError::UnmatchedClose);
    assert_eq!(compile_template("/x/{}").unwrap_err(), TemplateError::EmptyName);
    assert_eq!(compile_template("/{a{b}}").unwrap_err(), TemplateError::UnmatchedOpen);
}

#[test]
fn compile_constant_and_empty() {
    let segs = compile_template("/tasks").unwrap();
    assert_eq!(segs.len(), 1);
    assert!(compile_template("").unwrap().is_empty());
}

#[test]
fn router_path_uses_colons() {
    let segs = compile_template("/tasks/{id}/toggle").unwrap();
    assert_eq!(normalized_path(&segs), "/tasks/:id/toggle");
}

#[test]
fn reverse_url_fills_in_order() {
    let segs = compile_template("/u/{a}/p/{b}").unwrap();
    assert_eq!(reverse_url(&segs, &vec![lit("7"), lit("x")]), "/u/7/p/x");
}

#[test]
fn reverse_url_reparses_as_one_literal() {
    let segs = compile_template("/tasks/{id}/toggle").unwrap();
    let url = reverse_url(&segs, &vec![lit("42")]);
    let again = compile_template(&url).unwrap();
    assert_eq!(again.len(), 1);
    assert!(matches!(&again[0], PathSegment::Literal(s) if s == "/tasks/42/toggle"));
}

#[test]
fn route_template_rejects_duplicates() {
    let r = RouteTemplate::parse("/x/{id}/{id}", Method::Get);
    assert_eq!(r.unwrap_err(), TemplateError::DuplicateParameter);
}

#[test]
fn route_template_endpoint() {
    let rt = RouteTemplate::parse("/tasks/{id}/toggle", Method::Post).unwrap();
    assert_eq!(rt.param_count(), 1);
    assert_eq!(rt.router_path(), "/tasks/:id/toggle");
    let e = rt.endpoint(&vec![lit("9")]);
    assert_eq!(e.path, "/tasks/9/toggle");
    assert_eq!(e.method, Method::Post);
    let c = RouteTemplate::parse("/tasks", Method::Post).unwrap();
    assert_eq!(c.endpoint(&vec![]).path, "/tasks");
}

#[test]
fn registry_keeps_order_and_duplicates() {
    let mut reg: Registry<u8> = Registry::new();
    reg.register(RouteDefinition::new("/", Method::Get, 1).unwrap());
    reg.register(RouteDefinition::new("/tasks/{id}", Method::Delete, 2).unwrap());
    reg.register(RouteDefinition::new("/", Method::Get, 3).unwrap());
    assert_eq!(reg.all().len(), 3);
    assert_eq!(reg.all()[2].handler, 3);
    let paths = reg.router_paths();
    assert_eq!(paths[1], (lit("/tasks/:id"), Method::Delete));
    assert!(RouteDefinition::new("/{", Method::Get, 0).is_err());
}

#[test]
fn case_conversions() {
    assert_eq!(to_screaming_case("toggleTask"), "TOGGLE_TASK");
    assert_eq!(to_screaming_case("create_task"), "CREATE_TASK");
    assert_eq!(to_snake_case("TaskItem"), "task_item");
    assert_eq!(to_snake_case(""), "");
}
