//! What the SQLite gateway computes around its calls into the database: the
//! statements it sends, the row it keeps of a lookup, and the key it hands a
//! freshly stored model.

use crate::compile::select_text;
use crate::key::{key_bytes, le_i64};
use crate::text::{decimal, i64_decimal, join};
use crate::wrapper::ModelLifeCycle;
use vstd::prelude::*;
use vstd::string::*;

verus! {

/// The column names of hydrated fields.
pub open spec fn field_names(fields: Seq<(String, String)>) -> Seq<Seq<char>> {
    fields.map_values(|f: (String, String)| f.0@)
}

/// The values of hydrated fields.
pub open spec fn field_values(fields: Seq<(String, String)>) -> Seq<Seq<char>> {
    fields.map_values(|f: (String, String)| f.1@)
}

/// The text between the column list and the value list of an insert.
pub open spec fn values_keyword() -> Seq<char> {
    ")\n                       VALUES ("@
}

/// `INSERT INTO <relation> (<columns>) VALUES (<values>)`, with the columns
/// and values in the order of `fields`, each list separated by `, `.
pub open spec fn insert_text(relation: Seq<char>, fields: Seq<(String, String)>) -> Seq<char> {
    "INSERT INTO "@ + relation + " ("@ + join(field_names(fields), ", "@) + values_keyword() + join(
        field_values(fields),
        ", "@,
    ) + ")"@
}

/// `SELECT * FROM <relation> where id = <id>`.
pub open spec fn select_by_id_text(relation: Seq<char>, id: int) -> Seq<char> {
    "SELECT * FROM "@ + relation + " where id = "@ + decimal(id)
}

/// The statement that reads every row of a relation.
pub fn select_all_statement(relation: &str) -> (sql: String)
    ensures
        sql@ == select_text(None, relation@),
{
    let mut sql = String::from_str("SELECT ");
    sql.append("*");
    sql.append(" FROM ");
    sql.append(relation);
    sql
}

/// The statement that reads the row of a relation with the given id.
pub fn select_by_id_statement(relation: &str, id: i64) -> (sql: String)
    ensures
        sql@ == select_by_id_text(relation@, id as int),
{
    let mut sql = String::from_str("SELECT * FROM ");
    sql.append(relation);
    sql.append(" where id = ");
    let n = i64_decimal(id);
    sql.append(n.as_str());
    sql
}

/// The statement that stores a hydrated model in a relation.
pub fn insert_statement(relation: &str, fields: &Vec<(String, String)>) -> (sql: String)
    ensures
        sql@ == insert_text(relation@, fields@),
{
    let ghost names = field_names(fields@);
    let ghost values = field_values(fields@);
    let mut field_list = String::new();
    let mut values_list = String::new();
    let mut i: usize = 0;
    while i < fields.len()
        invariant
            i <= fields@.len(),
            names == field_names(fields@),
            values == field_values(fields@),
            field_list@ == join(names.take(i as int), ", "@),
            values_list@ == join(values.take(i as int), ", "@),
        decreases fields@.len() - i,
    {
        assert(names.take(i + 1).drop_last() == names.take(i as int));
        assert(values.take(i + 1).drop_last() == values.take(i as int));
        if i != 0 {
            field_list.append(", ");
            values_list.append(", ");
        }
        field_list.append(fields[i].0.as_str());
        values_list.append(fields[i].1.as_str());
        i = i + 1;
    }
    assert(names.take(fields@.len() as int) == names);
    assert(values.take(fields@.len() as int) == values);
    let mut sql = String::from_str("INSERT INTO ");
    sql.append(relation);
    sql.append(" (");
    sql.append(field_list.as_str());
    sql.append(")\n                       VALUES (");
    sql.append(values_list.as_str());
    sql.append(")");
    sql
}

/// The one row a lookup keeps of the rows the database returned: the first,
/// if there is any.
pub fn first_row<T>(rows: Vec<T>) -> (row: Option<T>)
    ensures
        row == (if rows@.len() > 0 {
            Some(rows@[0])
        } else {
            None
        }),
{
    let mut rows = rows;
    if rows.len() > 0 {
        Some(rows.remove(0))
    } else {
        None
    }
}

/// Tells a freshly stored model the row id the database gave it, as the
/// eight little-endian bytes of the id.
pub fn assign_row_id<W: ModelLifeCycle>(m: &mut W, row_id: i64)
    ensures
        exists|bytes: Seq<u8>|
            bytes.len() == 8 && le_i64(bytes) == row_id as int && W::created_with(
                *old(m),
                *final(m),
                bytes,
            ),
{
    let bytes = key_bytes(row_id);
    m.created(bytes.as_slice());
}

} // verus!
