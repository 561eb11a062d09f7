//! Table schemas, column types, and the SQL statements of the database layer.

use vstd::prelude::*;
use crate::text::push_str;

verus! {

/// One column of a table.
#[derive(Clone, Debug)]
pub struct ColumnSchema {
    pub name: String,
    pub sql_type: String,
    pub primary_key: bool,
    pub auto_increment: bool,
    pub nullable: bool,
    pub default: Option<String>,
}

/// A table: its name and columns, in order.
#[derive(Clone, Debug)]
pub struct TableSchema {
    pub name: String,
    pub columns: Vec<ColumnSchema>,
}

/// A column's definition in `CREATE TABLE`.
pub open spec fn column_sql(c: ColumnSchema) -> Seq<char> {
    c.name@ + " "@ + c.sql_type@
        + (if c.primary_key { " PRIMARY KEY"@ } else { Seq::empty() })
        + (if c.auto_increment { " AUTOINCREMENT"@ } else { Seq::empty() })
        + (if !c.nullable && !c.primary_key { " NOT NULL"@ } else { Seq::empty() })
        + match c.default {
            Option::Some(d) => " DEFAULT "@ + d@,
            Option::None => Seq::empty(),
        }
}

/// Column definitions separated by `, `.
pub open spec fn columns_sql(cs: Seq<ColumnSchema>) -> Seq<char>
    decreases cs.len(),
{
    if cs.len() == 0 {
        Seq::empty()
    } else if cs.len() == 1 {
        column_sql(cs[0])
    } else {
        columns_sql(cs.drop_last()) + ", "@ + column_sql(cs.last())
    }
}

/// A column's definition in `CREATE TABLE`.
pub fn column_def(c: &ColumnSchema) -> (r: String)
    ensures
        r@ == column_sql(*c),
{
    let mut s = String::new();
    push_str(&mut s, c.name.as_str());
    push_str(&mut s, " ");
    push_str(&mut s, c.sql_type.as_str());
    let ghost base = s@;
    if c.primary_key {
        push_str(&mut s, " PRIMARY KEY");
    }
    let ghost a = s@;
    if c.auto_increment {
        push_str(&mut s, " AUTOINCREMENT");
    }
    let ghost b = s@;
    if !c.nullable && !c.primary_key {
        push_str(&mut s, " NOT NULL");
    }
    let ghost d = s@;
    match &c.default {
        Some(v) => {
            push_str(&mut s, " DEFAULT ");
            push_str(&mut s, v.as_str());
        },
        None => {},
    }
    proof {
        assert(a =~= base + (if c.primary_key { " PRIMARY KEY"@ } else { Seq::empty() }));
        assert(b =~= a + (if c.auto_increment { " AUTOINCREMENT"@ } else { Seq::empty() }));
        assert(d =~= b + (if !c.nullable && !c.primary_key { " NOT NULL"@ } else { Seq::empty() }));
        assert(s@ =~= d + match c.default {
            Option::Some(v) => " DEFAULT "@ + v@,
            Option::None => Seq::empty(),
        });
    }
    s
}

/// `CREATE TABLE IF NOT EXISTS name (columns)`.
pub fn create_table_sql(schema: &TableSchema) -> (r: String)
    ensures
        r@ == "CREATE TABLE IF NOT EXISTS "@ + schema.name@ + " ("@ + columns_sql(schema.columns@)
            + ")"@,
{
    let mut cols = String::new();
    let mut k: usize = 0;
    while k < schema.columns.len()
        invariant
            k <= schema.columns@.len(),
            cols@ == columns_sql(schema.columns@.take(k as int)),
        decreases schema.columns.len() - k,
    {
        let ghost cs = schema.columns@;
        proof {
            assert(cs.take(k + 1).drop_last() =~= cs.take(k as int));
            assert(cs.take(k + 1).last() == cs[k as int]);
        }
        let def = column_def(&schema.columns[k]);
        if k > 0 {
            push_str(&mut cols, ", ");
        } else {
            proof {
                assert(cs.take(1)[0] == cs[0]);
                assert(cols@ =~= Seq::<char>::empty());
            }
        }
        push_str(&mut cols, def.as_str());
        proof {
            if k == 0 {
                assert(cols@ =~= column_sql(cs[0]));
            }
        }
        k = k + 1;
    }
    proof {
        assert(schema.columns@.take(k as int) =~= schema.columns@);
    }
    let mut s = String::from_str("CREATE TABLE IF NOT EXISTS ");
    push_str(&mut s, schema.name.as_str());
    push_str(&mut s, " (");
    push_str(&mut s, cols.as_str());
    push_str(&mut s, ")");
    s
}

/// A Rust type's column type.
pub trait SqlType {
    spec fn sql_type_view() -> Seq<char>;

    fn sql_type() -> (r: String)
        ensures
            r@ == Self::sql_type_view(),
    ;

    /// The column default, if the type has one.
    spec fn default_view() -> Option<Seq<char>>;

    fn default_value() -> (r: Option<String>)
        ensures
            match r {
                Option::Some(d) => Self::default_view() == Option::Some(d@),
                Option::None => Self::default_view() is None,
            },
    ;
}

impl SqlType for i32 {
    open spec fn sql_type_view() -> Seq<char> {
        "INTEGER"@
    }

    fn sql_type() -> (r: String) {
        String::from_str("INTEGER")
    }

    open spec fn default_view() -> Option<Seq<char>> {
        None
    }

    fn default_value() -> (r: Option<String>) {
        None
    }
}

impl SqlType for i64 {
    open spec fn sql_type_view() -> Seq<char> {
        "INTEGER"@
    }

    fn sql_type() -> (r: String) {
        String::from_str("INTEGER")
    }

    open spec fn default_view() -> Option<Seq<char>> {
        None
    }

    fn default_value() -> (r: Option<String>) {
        None
    }
}

impl SqlType for String {
    open spec fn sql_type_view() -> Seq<char> {
        "TEXT"@
    }

    fn sql_type() -> (r: String) {
        String::from_str("TEXT")
    }

    open spec fn default_view() -> Option<Seq<char>> {
        None
    }

    fn default_value() -> (r: Option<String>) {
        None
    }
}

impl SqlType for bool {
    open spec fn sql_type_view() -> Seq<char> {
        "BOOLEAN"@
    }

    fn sql_type() -> (r: String) {
        String::from_str("BOOLEAN")
    }

    open spec fn default_view() -> Option<Seq<char>> {
        Some("0"@)
    }

    fn default_value() -> (r: Option<String>) {
        Some(String::from_str("0"))
    }
}

impl<T: SqlType> SqlType for Option<T> {
    open spec fn sql_type_view() -> Seq<char> {
        T::sql_type_view()
    }

    fn sql_type() -> (r: String) {
        T::sql_type()
    }

    open spec fn default_view() -> Option<Seq<char>> {
        None
    }

    fn default_value() -> (r: Option<String>) {
        None
    }
}

/// A type whose values are rows of a table.
pub trait HasSchema {
    fn schema() -> TableSchema;
}

/// A value bound to a statement parameter.
#[derive(Clone, Debug, PartialEq, Eq)]
pub enum SqlValue {
    String(String),
    Int(i32),
    Bool(bool),
    Null,
}

/// Names separated by `, `.
pub open spec fn comma_list(names: Seq<Seq<char>>) -> Seq<char>
    decreases names.len(),
{
    if names.len() == 0 {
        Seq::empty()
    } else if names.len() == 1 {
        names[0]
    } else {
        comma_list(names.drop_last()) + ", "@ + names.last()
    }
}

/// `n` placeholders `?` separated by `, `.
pub open spec fn placeholders(n: nat) -> Seq<char>
    decreases n,
{
    if n == 0 {
        Seq::empty()
    } else if n == 1 {
        "?"@
    } else {
        placeholders((n - 1) as nat) + ", ?"@
    }
}

/// Joins strings with `, `.
pub fn join_comma(names: &Vec<String>) -> (r: String)
    ensures
        r@ == comma_list(names@.map_values(|s: String| s@)),
{
    let ghost nv = names@.map_values(|s: String| s@);
    let mut r = String::new();
    let mut k: usize = 0;
    while k < names.len()
        invariant
            k <= names.len(),
            nv == names@.map_values(|s: String| s@),
            r@ == comma_list(nv.take(k as int)),
        decreases names.len() - k,
    {
        proof {
            assert(nv.take(k + 1).drop_last() =~= nv.take(k as int));
            assert(nv.take(k + 1).last() == names@[k as int]@);
        }
        if k > 0 {
            push_str(&mut r, ", ");
        } else {
            proof {
                assert(nv.take(1)[0] == names@[0]@);
                assert(r@ =~= Seq::<char>::empty());
            }
        }
        push_str(&mut r, names[k].as_str());
        proof {
            if k == 0 {
                assert(r@ =~= names@[0]@);
            }
        }
        k = k + 1;
    }
    proof {
        assert(nv.take(k as int) =~= nv);
    }
    r
}

/// `SELECT * FROM table`.
pub fn select_all_sql(table: &str) -> (r: String)
    ensures
        r@ == "SELECT * FROM "@ + table@,
{
    let mut s = String::from_str("SELECT * FROM ");
    push_str(&mut s, table);
    s
}

/// `SELECT * FROM table WHERE id = ?`.
pub fn select_by_id_sql(table: &str) -> (r: String)
    ensures
        r@ == "SELECT * FROM "@ + table@ + " WHERE id = ?"@,
{
    let mut s = String::from_str("SELECT * FROM ");
    push_str(&mut s, table);
    push_str(&mut s, " WHERE id = ?");
    s
}

/// `DELETE FROM table WHERE id = ?`.
pub fn delete_by_id_sql(table: &str) -> (r: String)
    ensures
        r@ == "DELETE FROM "@ + table@ + " WHERE id = ?"@,
{
    let mut s = String::from_str("DELETE FROM ");
    push_str(&mut s, table);
    push_str(&mut s, " WHERE id = ?");
    s
}

/// `INSERT INTO table (a, b) VALUES (?, ?)`, one placeholder per column.
pub fn insert_sql(table: &str, columns: &Vec<String>) -> (r: String)
    ensures
        r@ == "INSERT INTO "@ + table@ + " ("@ + comma_list(columns@.map_values(|s: String| s@))
            + ") VALUES ("@ + placeholders(columns@.len()) + ")"@,
{
    let mut s = String::from_str("INSERT INTO ");
    push_str(&mut s, table);
    push_str(&mut s, " (");
    let cols = join_comma(columns);
    push_str(&mut s, cols.as_str());
    push_str(&mut s, ") VALUES (");
    let mut ph = String::new();
    let mut k: usize = 0;
    while k < columns.len()
        invariant
            k <= columns.len(),
            ph@ == placeholders(k as nat),
        decreases columns.len() - k,
    {
        if k == 0 {
            push_str(&mut ph, "?");
            proof {
                assert(ph@ =~= "?"@);
            }
        } else {
            push_str(&mut ph, ", ?");
        }
        k = k + 1;
    }
    push_str(&mut s, ph.as_str());
    push_str(&mut s, ")");
    s
}

/// A table that start-up creates, held as what gives its schema (a function,
/// in a running application).
pub struct SchemaRegistration<F> {
    pub get_schema: F,
}

impl<F> SchemaRegistration<F> {
    pub fn new(get_schema: F) -> (r: SchemaRegistration<F>)
        ensures
            r.get_schema == get_schema,
    {
        SchemaRegistration { get_schema }
    }
}

} // verus!
