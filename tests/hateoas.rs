use acacia::hateoas::{loads, removes, submits, Endpoint, HtmxAction, Method, Swap, Target};

#[test]
fn build_post_with_target_and_swap() {
    let a = HtmxAction::new(Endpoint::post("/tasks"))
        .into("#tasks")
        .append();
    assert_eq!(a.build(), "hx-post=\"/tasks\" hx-target=\"#tasks\" hx-swap=\"beforeend\"");
}

#[test]
fn build_method_only() {
    let a = HtmxAction::new(Endpoint::get("/"));
    assert_eq!(a.build(), "hx-get=\"/\"");
}

#[test]
fn loads_forces_get() {
    let a = loads(Endpoint::delete("/x"));
    assert_eq!(a.endpoint.method, Method::Get);
    assert_eq!(a.build(), "hx-get=\"/x\"");
}

#[test]
fn submits_keeps_method() {
    assert_eq!(submits(Endpoint::post_const("/tasks")).build(), "hx-post=\"/tasks\"");
}

#[test]
fn removes_targets_parent_list_item() {
    let a = removes(Endpoint::delete("/tasks/3"));
    assert_eq!(
        a.build(),
        "hx-delete=\"/tasks/3\" hx-target=\"closest li\" hx-swap=\"outerHTML\""
    );
}

#[test]
fn removes_is_delete_whatever_the_method() {
    let a = removes(Endpoint::get("/tasks/4"));
    assert_eq!(a.endpoint.method, Method::Delete);
    assert_eq!(
        a.build(),
        "hx-delete=\"/tasks/4\" hx-target=\"closest li\" hx-swap=\"outerHTML\""
    );
}

#[test]
fn targets_render() {
    assert_eq!(Target::This.render(), "this");
    assert_eq!(Target::Closest("tr".to_string()).render(), "closest tr");
    assert_eq!(Target::Selector("#main".to_string()).render(), "#main");
}

#[test]
fn swap_names() {
    assert_eq!(Swap::InnerHtml.as_str(), "innerHTML");
    assert_eq!(Swap::AfterBegin.as_str(), "afterbegin");
    assert_eq!(Swap::NoSwap.as_str(), "none");
    let a = HtmxAction::new(Endpoint::new("/p", Method::Patch)).swap(Swap::Delete).prepend();
    assert_eq!(a.build(), "hx-patch=\"/p\" hx-swap=\"afterbegin\"");
}

#[test]
fn method_names() {
    assert_eq!(Method::Put.as_str(), "PUT");
    assert_eq!(Method::Delete.attr_name(), "hx-delete");
    assert_eq!(Endpoint::get_const("/a").method, Method::Get);
    assert_eq!(Endpoint::delete_const("/a").path, "/a");
}
