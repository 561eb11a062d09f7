use acacia::capability::RenderHtml;
use acacia::hateoas::Method;
use acacia::page::Fragment;
use acacia::schema::{
    create_table_sql, delete_by_id_sql, insert_sql, select_all_sql, select_by_id_sql, ColumnSchema,
    SchemaRegistration, SqlType, TableSchema,
};
use acacia::tw::{join_classes, TwClass};

fn col(name: &str, ty: &str, pk: bool, default: Option<&str>) -> ColumnSchema {
    ColumnSchema {
        name: name.to_string(),
        sql_type: ty.to_string(),
        primary_key: pk,
        auto_increment: pk,
        nullable: false,
        default: default.map(|d| d.to_string()),
    }
}

#[test]
fn create_table_statement() {
    let t = TableSchema {
        name: "tasks".to_string(),
        columns: vec![
            col("id", "INTEGER", true, None),
            col("title", "TEXT", false, None),
            col("done", "BOOLEAN", false, Some("0")),
        ],
    };
    assert_eq!(
        create_table_sql(&t),
        "CREATE TABLE IF NOT EXISTS tasks (id INTEGER PRIMARY KEY AUTOINCREMENT, title TEXT NOT NULL, done BOOLEAN NOT NULL DEFAULT 0)"
    );
}

#[test]
fn row_statements() {
    assert_eq!(select_all_sql("tasks"), "SELECT * FROM tasks");
    assert_eq!(select_by_id_sql("tasks"), "SELECT * FROM tasks WHERE id = ?");
    assert_eq!(delete_by_id_sql("tasks"), "DELETE FROM tasks WHERE id = ?");
    assert_eq!(
        insert_sql("tasks", &vec!["title".to_string(), "done".to_string()]),
        "INSERT INTO tasks (title, done) VALUES (?, ?)"
    );
    assert_eq!(insert_sql("t", &vec![]), "INSERT INTO t () VALUES ()");
}

#[test]
fn sql_types() {
    assert_eq!(<i32 as SqlType>::sql_type(), "INTEGER");
    assert_eq!(<String as SqlType>::sql_type(), "TEXT");
    assert_eq!(<bool as SqlType>::default_value(), Some("0".to_string()));
    assert_eq!(<Option<bool> as SqlType>::sql_type(), "BOOLEAN");
}

#[test]
fn declared_methods() {
    assert_eq!(Method::from_declared("delete"), Method::Delete);
    assert_eq!(Method::from_declared("Get"), Method::Get);
    assert_eq!(Method::from_declared("PATCH"), Method::Patch);
    assert_eq!(Method::from_declared("post"), Method::Post);
    assert_eq!(Method::from_declared("teapot"), Method::Post);
}

#[test]
fn render_html_capability() {
    assert_eq!("a<b".render_html(), "a&lt;b");
    assert_eq!("x&y".to_string().render_html(), "x&amp;y");
    assert_eq!(Fragment::new("<i>ok</i>".to_string()).render_html(), "<i>ok</i>");
    assert_eq!((-42i32).render_html(), "-42");
    assert_eq!(7u64.render_html(), "7");
    assert_eq!(false.render_html(), "false");
}

#[test]
fn class_lists() {
    assert_eq!("".to_class_str(), None);
    assert_eq!("flex".to_class_str(), Some("flex"));
    assert_eq!(Some("p-4".to_string()).to_class_str(), Some("p-4"));
    assert_eq!(join_classes(&vec![Some("flex"), None, Some("gap-4")]), "flex gap-4");
    assert_eq!(join_classes(&vec![None, None]), "");
}

fn empty_table() -> TableSchema {
    TableSchema { name: "t".to_string(), columns: vec![] }
}

#[test]
fn schema_registration_holds_its_function() {
    let reg = SchemaRegistration::new(empty_table as fn() -> TableSchema);
    assert_eq!(create_table_sql(&(reg.get_schema)()), "CREATE TABLE IF NOT EXISTS t ()");
}
