//! Compiling queries and changes to SQL text.

use crate::fieldset::{FieldSet, FieldSetMarker};
use crate::gateway::{Finished, Gateway, Transaction, TransactionImplementation};
use crate::query::{Find, Limit, Query, SelectFrom};
use crate::relation::{Relation, RelationField, RelationFieldSet};
use crate::text::{decimal, i64_decimal, join, join_strs, str_views, u64_decimal, usize_decimal};
use vstd::prelude::*;
use vstd::string::*;

verus! {

/// The SQL text of a query.
pub type CompiledQuery = String;

/// `SELECT <columns> FROM <relation>`, where no column list selects all
/// columns (`*`) and the columns of a list are separated by commas.
pub open spec fn select_text(columns: Option<Seq<Seq<char>>>, relation: Seq<char>) -> Seq<char> {
    let projection = match columns {
        Some(cs) => join(cs, ","@),
        None => "*"@,
    };
    "SELECT "@ + projection + " FROM "@ + relation
}

/// A query cut off after `max` rows.
pub open spec fn limit_text(inner: Seq<char>, max: nat) -> Seq<char> {
    inner + " LIMIT "@ + decimal(max as int)
}

/// A query narrowed to the rows whose `field` equals `value`, cut off after
/// `max` rows.
pub open spec fn find_text(inner: Seq<char>, field: Seq<char>, value: Seq<char>, max: nat) -> Seq<
    char,
> {
    inner + " WHERE "@ + field + " = "@ + value + " LIMIT "@ + decimal(max as int)
}

/// A lookup is a limited query narrowed by the looked-up value: its text is
/// the text of the limit applied to the narrowed query.
pub proof fn law_find_is_narrowed_limit(inner: Seq<char>, field: Seq<char>, value: Seq<char>, max: nat)
    ensures
        find_text(inner, field, value, max) == limit_text(
            inner + " WHERE "@ + field + " = "@ + value,
            max,
        ),
{
    assert(find_text(inner, field, value, max) =~= limit_text(
        inner + " WHERE "@ + field + " = "@ + value,
        max,
    ));
}

/// The SQL text of a `SELECT` of some or all columns of a relation.
pub fn select_sql(columns: Option<&Vec<&str>>, relation: &str) -> (sql: String)
    ensures
        sql@ == select_text(
            match columns {
                Some(cs) => Some(str_views(cs@)),
                None => None,
            },
            relation@,
        ),
{
    let mut sql = String::from_str("SELECT ");
    match columns {
        Some(cs) => {
            let list = join_strs(cs, ",");
            sql.append(list.as_str());
        },
        None => {
            sql.append("*");
        },
    }
    sql.append(" FROM ");
    sql.append(relation);
    sql
}

/// The SQL text of `inner` cut off after `max` rows.
pub fn limit_sql(inner: String, max: usize) -> (sql: String)
    ensures
        sql@ == limit_text(inner@, max as nat),
{
    let mut sql = inner;
    sql.append(" LIMIT ");
    let n = usize_decimal(max);
    sql.append(n.as_str());
    sql
}

/// The SQL text of `inner` narrowed to the rows whose `field` is `value`,
/// cut off after `max` rows.
pub fn find_sql(inner: String, field: &str, value: &str, max: usize) -> (sql: String)
    ensures
        sql@ == find_text(inner@, field@, value@, max as nat),
{
    let mut sql = inner;
    sql.append(" WHERE ");
    sql.append(field);
    sql.append(" = ");
    sql.append(value);
    sql.append(" LIMIT ");
    let n = usize_decimal(max);
    sql.append(n.as_str());
    sql
}

/// A value that can be written into SQL text.
pub trait SqlValue {
    /// The SQL text of the value.
    spec fn sql_text(&self) -> Seq<char>;

    fn to_sql(&self) -> (s: String)
        ensures
            s@ == self.sql_text(),
    ;
}

impl SqlValue for i64 {
    /// A decimal numeral.
    open spec fn sql_text(&self) -> Seq<char> {
        decimal(*self as int)
    }

    fn to_sql(&self) -> (s: String) {
        i64_decimal(*self)
    }
}

impl SqlValue for u64 {
    /// A decimal numeral.
    open spec fn sql_text(&self) -> Seq<char> {
        decimal(*self as int)
    }

    fn to_sql(&self) -> (s: String) {
        u64_decimal(*self)
    }
}

/// A gateway that compiles the query `Q`, whose fields are marked `M`.
pub trait Compile<Q: Query, M: FieldSetMarker>: Gateway {
    /// The SQL text of `query`.
    spec fn sql_of(query: Q) -> Seq<char>;

    fn compile(query: &Q) -> (sql: CompiledQuery)
        ensures
            sql@ == Self::sql_of(*query),
    ;
}

/// A gateway that compiles queries to generic SQL. It stores nothing.
pub struct GenericSqlGateway;

/// The transaction of `GenericSqlGateway`, which stores nothing.
pub struct GenericSqlGatewayTransactionImplementation;

impl TransactionImplementation for GenericSqlGatewayTransactionImplementation {
    fn insert<R: Relation>(&mut self, m: &mut R::Wrapper) {
    }
}

impl Gateway for GenericSqlGateway {
    type TransactionImplementation = GenericSqlGatewayTransactionImplementation;

    fn start_transaction(&self) -> (t: Transaction<GenericSqlGatewayTransactionImplementation>) {
        Transaction::new(GenericSqlGatewayTransactionImplementation)
    }

    fn finish_transaction(&self, transaction: Transaction<GenericSqlGatewayTransactionImplementation>) -> (r:
        Finished) {
        let (_, r) = transaction.finish();
        r
    }
}

/// The text of a selection: all columns for a complete field set, else the
/// columns of the selected fields.
pub open spec fn select_from_text<F: RelationFieldSet<Relation = R> + FieldSet<Marker = M>, R: Relation, M: FieldSetMarker>() -> Seq<char> {
    select_text(
        if M::covers_all() {
            None
        } else {
            Some(F::columns())
        },
        R::table(),
    )
}

impl<F: RelationFieldSet<Relation = R> + FieldSet<Marker = M>, R: Relation, M: FieldSetMarker> Compile<
    SelectFrom<F, R>,
    M,
> for GenericSqlGateway {
    /// `SELECT * FROM <relation>` for a complete field set, else the
    /// comma-separated names of the selected fields in place of `*`.
    open spec fn sql_of(query: SelectFrom<F, R>) -> Seq<char> {
        select_from_text::<F, R, M>()
    }

    fn compile(query: &SelectFrom<F, R>) -> (sql: CompiledQuery) {
        let relation = R::name();
        if M::selects_all() {
            select_sql(None, relation)
        } else {
            let names = F::names();
            select_sql(Some(&names), relation)
        }
    }
}

impl<Q: Query, M: FieldSetMarker> Compile<Limit<Q>, M> for GenericSqlGateway where
    GenericSqlGateway: Compile<Q, M>,
 {
    /// The limited query followed by `LIMIT <max>`.
    open spec fn sql_of(query: Limit<Q>) -> Seq<char> {
        limit_text(
            <GenericSqlGateway as Compile<Q, M>>::sql_of(query.inner_query()),
            query.max_rows() as nat,
        )
    }

    fn compile(query: &Limit<Q>) -> (sql: CompiledQuery) {
        let inner = <GenericSqlGateway as Compile<Q, M>>::compile(query.inner());
        limit_sql(inner, query.max())
    }
}

impl<
    F: RelationFieldSet<Relation = R> + FieldSet<Marker = M>,
    R: Relation,
    M: FieldSetMarker,
> Compile<Find<R::PrimaryKey, SelectFrom<F, R>>, M> for GenericSqlGateway where
    R::PrimaryKey: SqlValue,
 {
    /// The selection, narrowed by `WHERE <primary key field> = <key>`, then
    /// `LIMIT <max>` with the lookup's limit of one row.
    open spec fn sql_of(query: Find<R::PrimaryKey, SelectFrom<F, R>>) -> Seq<char> {
        find_text(
            select_from_text::<F, R, M>(),
            <R::PrimaryField as RelationField>::column(),
            query.find_parameters().id.sql_text(),
            query.limited().max_rows() as nat,
        )
    }

    fn compile(query: &Find<R::PrimaryKey, SelectFrom<F, R>>) -> (sql: CompiledQuery) {
        let inner = <GenericSqlGateway as Compile<SelectFrom<F, R>, M>>::compile(query.inner());
        let field = <R::PrimaryField as RelationField>::name();
        let value = query.parameter().to_sql();
        find_sql(inner, field, value.as_str(), query.limit().max())
    }
}

/// A limited selection compiles to the selection's own text followed by
/// ` LIMIT <max>`.
pub proof fn law_limited_select_text<
    F: RelationFieldSet<Relation = R> + FieldSet<Marker = M>,
    R: Relation,
    M: FieldSetMarker,
>(query: Limit<SelectFrom<F, R>>)
    ensures
        <GenericSqlGateway as Compile<Limit<SelectFrom<F, R>>, M>>::sql_of(query)
            == <GenericSqlGateway as Compile<SelectFrom<F, R>, M>>::sql_of(query.inner_query())
            + " LIMIT "@ + decimal(query.max_rows() as int),
        <GenericSqlGateway as Compile<SelectFrom<F, R>, M>>::sql_of(query.inner_query())
            == select_from_text::<F, R, M>(),
{
}

} // verus!
