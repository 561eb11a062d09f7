use acacia::escape::escape_html;
use acacia::hateoas::{submits, Target};
use acacia::hateoas::Method;
use acacia::markup::{Component, Node, Value};
use acacia::page::Fragment;
use acacia::parser::{parse_markup, ParseErrorKind};
use acacia::path::RouteTemplate;
use acacia::render::{render, RenderError};

fn run(src: &str, vars: Vec<(String, Value)>) -> Result<String, RenderError> {
    let nodes = parse_markup(src).unwrap();
    render(&nodes, &vars, &vec![], 8).map(|f| f.0)
}

fn var(name: &str, v: Value) -> (String, Value) {
    (name.to_string(), v)
}

#[test]
fn escape_all_five() {
    assert_eq!(escape_html("<a href=\"x\">'&'</a>"), "&lt;a href=&quot;x&quot;&gt;&#x27;&amp;&#x27;&lt;/a&gt;");
    assert_eq!(escape_html("plain"), "plain");
}

#[test]
fn text_values_are_escaped() {
    let out = run("<p>{v}</p>", vec![var("v", Value::Text("<script>'x' & \"y\"</script>".to_string()))]);
    assert_eq!(out.unwrap(), "<p>&lt;script&gt;&#x27;x&#x27; &amp; &quot;y&quot;&lt;/script&gt;</p>");
}

#[test]
fn numbers_and_booleans_render() {
    assert_eq!(run("{n}", vec![var("n", Value::Int(-120))]).unwrap(), "-120");
    assert_eq!(run("{n}", vec![var("n", Value::Int(i64::MIN))]).unwrap(), "-9223372036854775808");
    assert_eq!(run("{b}", vec![var("b", Value::Bool(true))]).unwrap(), "true");
    assert_eq!(run("{true}", vec![]).unwrap(), "true");
    assert_eq!(run("{\"a<b\"}", vec![]).unwrap(), "a&lt;b");
}

#[test]
fn html_values_pass_through() {
    let out = run("{h}", vec![var("h", Value::Html(Fragment::new("<b>x</b>".to_string())))]);
    assert_eq!(out.unwrap(), "<b>x</b>");
}

#[test]
fn boolean_attributes() {
    let t = run("<input checked={c} disabled={d}/>", vec![var("c", Value::Bool(true)), var("d", Value::Bool(false))]);
    assert_eq!(t.unwrap(), "<input checked />");
    let e = run("<input readonly={c}/>", vec![var("c", Value::Int(1))]);
    assert_eq!(e.unwrap_err(), RenderError::NotBoolean);
}

#[test]
fn attribute_values_are_escaped_and_spreads_are_not() {
    let out = run(
        "<a title={t} {s} href=\"/x\" hidden>go</a>",
        vec![var("t", Value::Text("a\"b".to_string())), var("s", Value::Text("hx-get=\"/y\"".to_string()))],
    );
    assert_eq!(out.unwrap(), "<a title=\"a&quot;b\" hx-get=\"/y\" href=\"/x\" hidden>go</a>");
}

#[test]
fn void_tag_needs_no_close() {
    assert!(parse_markup("<br>").is_ok());
    assert_eq!(run("<p>a<br>b</p>", vec![]).unwrap(), "<p>a<br />b</p>");
}

#[test]
fn non_void_tag_needs_close() {
    let e = parse_markup("<div>").unwrap_err();
    assert_eq!(e.kind, ParseErrorKind::Unclosed("div".to_string()));
    assert_eq!(e.at, 5);
    let nested = parse_markup("<ul><li>a</li>").unwrap_err();
    assert_eq!(nested.kind, ParseErrorKind::Unclosed("ul".to_string()));
    let m = parse_markup("<div></span>").unwrap_err();
    assert_eq!(m.kind, ParseErrorKind::MismatchedClose("div".to_string()));
    assert!(parse_markup("</p>").is_err());
}

#[test]
fn comments_and_doctype() {
    assert_eq!(run("<!DOCTYPE html><!-- hi -->", vec![]).unwrap(), "<!DOCTYPE html><!-- hi -->");
}

#[test]
fn for_over_empty_list_renders_nothing() {
    let out = run("@for x in xs {<i>{x}</i>}", vec![var("xs", Value::List(vec![]))]);
    assert_eq!(out.unwrap(), "");
}

#[test]
fn for_keeps_item_order() {
    let xs = Value::List(vec![Value::Text("x".to_string()), Value::Text("y".to_string())]);
    let out = run("@for x in xs {<i>{x}</i>}", vec![var("xs", xs)]);
    assert_eq!(out.unwrap(), "<i>x</i><i>y</i>");
}

#[test]
fn if_else_branches() {
    let src = "@if ok {yes} else {no}";
    assert_eq!(run(src, vec![var("ok", Value::Bool(true))]).unwrap(), "yes");
    assert_eq!(run(src, vec![var("ok", Value::Bool(false))]).unwrap(), "no");
    assert_eq!(run("@if ok {yes}", vec![var("ok", Value::Bool(false))]).unwrap(), "");
    assert_eq!(run(src, vec![var("ok", Value::Text("t".to_string()))]).unwrap_err(), RenderError::NotBoolean);
}

#[test]
fn render_errors() {
    assert_eq!(run("{nope}", vec![]).unwrap_err(), RenderError::UnknownVariable);
    assert_eq!(run("{x.f}", vec![var("x", Value::Int(1))]).unwrap_err(), RenderError::UnknownField);
    assert_eq!(run("{x}", vec![var("x", Value::List(vec![]))]).unwrap_err(), RenderError::NotText);
    assert_eq!(run("@for i in x {a}", vec![var("x", Value::Int(1))]).unwrap_err(), RenderError::NotList);
    assert_eq!(run("<Missing />", vec![]).unwrap_err(), RenderError::UnknownComponent);
}

#[test]
fn components_nest_within_depth() {
    let body = parse_markup("<Loop />").unwrap();
    let comps = vec![Component { name: "Loop".to_string(), body }];
    let nodes = parse_markup("<Loop />").unwrap();
    assert_eq!(render(&nodes, &vec![], &comps, 5).unwrap_err(), RenderError::TooDeep);
}

#[test]
fn uppercase_tag_is_component() {
    let nodes = parse_markup("<Card title=\"hi\" />").unwrap();
    assert!(matches!(&nodes[0], Node::Component { name, props } if name == "Card" && props.len() == 1));
    let comps = vec![Component { name: "Card".to_string(), body: parse_markup("<h2>{title}</h2>").unwrap() }];
    assert_eq!(render(&nodes, &vec![], &comps, 4).unwrap().0, "<h2>hi</h2>");
}

#[test]
fn toggle_task_end_to_end() {
    let route = RouteTemplate::parse("/tasks/{id}/toggle", Method::Post).unwrap();
    let action = submits(route.endpoint(&vec!["7".to_string()])).target(Target::Parent).build();
    let item = parse_markup(
        "<li><input type=\"checkbox\" checked={task.done} {action} /><span>{task.title}</span></li>",
    )
    .unwrap();
    let comps = vec![Component { name: "TaskItem".to_string(), body: item }];
    let page = parse_markup("@if t.done {<TaskItem task={t} action={act} />}").unwrap();
    let task = Value::Record(vec![
        ("id".to_string(), Value::Int(7)),
        ("title".to_string(), Value::Text("<b>Milk & eggs</b>".to_string())),
        ("done".to_string(), Value::Bool(true)),
    ]);
    let vars = vec![var("t", task), var("act", Value::Html(Fragment::new(action)))];
    let out = render(&page, &vars, &comps, 4).unwrap().0;
    assert_eq!(
        out,
        "<li><input type=\"checkbox\" checked hx-post=\"/tasks/7/toggle\" hx-target=\"closest li\" /><span>&lt;b&gt;Milk &amp; eggs&lt;/b&gt;</span></li>"
    );
}
