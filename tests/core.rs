use acacia::config::{Acacia, MigratePolicy};
use acacia::errors::{or_not_found, AppError, DbError, Error, OptionExt};
use acacia::page::{Children, Fragment, Page};
use acacia::response::{Response, Valid};

#[test]
fn fragment_basics() {
    let f = Fragment::new("<p>a</p>".to_string()).concat(Fragment::new("<p>b</p>".to_string()));
    assert_eq!(f.as_str(), "<p>a</p><p>b</p>");
    assert_eq!(Fragment::empty().as_str(), "");
    assert_eq!(Children::new(f.clone()).into_fragment().0, f.0);
}

#[test]
fn page_wraps_content() {
    let p = Fragment::new("<h1>Hi</h1>".to_string()).into_page();
    assert!(p.0.starts_with("<!DOCTYPE html>"));
    assert!(p.0.contains("<title>Acacia App</title>"));
    assert!(p.0.contains("<body>\n<h1>Hi</h1>\n</body>"));
    let t = Page::with_title("x".to_string(), "Tasks");
    assert!(t.0.contains("<title>Tasks</title>"));
    assert!(t.0.contains("htmx.min.js"));
}

#[test]
fn app_errors() {
    assert_eq!(AppError::NotFound.status_code(), 404);
    assert_eq!(AppError::Conflict("dup".to_string()).status_code(), 409);
    assert_eq!(AppError::Database("db".to_string()).status_code(), 500);
    assert_eq!(AppError::Unauthorized.message(), "Unauthorized");
    assert_eq!(AppError::BadRequest("bad".to_string()).message(), "bad");
    assert!(AppError::Forbidden.error_html().contains("<strong>Error:</strong> Forbidden"));
}

#[test]
fn framework_errors() {
    assert_eq!(Error::Validation("x".to_string()).message(), "Validation error: x");
    assert_eq!(Error::NotFound.message(), "Not found");
    assert_eq!(Error::Validation("x".to_string()).status_code(), 400);
    assert_eq!(DbError::Query("q".to_string()).into_app_error(), AppError::Database("q".to_string()));
    assert_eq!(DbError::NotFound.into_app_error(), AppError::NotFound);
}

#[test]
fn option_not_found() {
    assert_eq!(or_not_found(Some(3)), Ok(3));
    assert_eq!(None::<u8>.or_not_found(), Err(AppError::NotFound));
}

#[test]
fn responses() {
    let r = Response::html("<p/>".to_string()).with_status(201).with_header("HX-Trigger".to_string(), "done".to_string());
    assert_eq!(r.status, 201);
    assert_eq!(r.headers, vec![("HX-Trigger".to_string(), "done".to_string())]);
    assert_eq!(Response::empty().body, "");
    assert_eq!(Valid::new(5).into_inner(), 5);
}

#[test]
fn settings() {
    let a = Acacia::new().database("sqlite://x").migrate(MigratePolicy::Skip);
    assert_eq!(a.database_url.as_deref(), Some("sqlite://x"));
    assert_eq!(a.migrate_policy, MigratePolicy::Skip);
    assert_eq!(Acacia::new().migrate_policy, MigratePolicy::Auto);
}
