//! Queries: a selection of fields from a relation, possibly limited to a
//! number of rows or narrowed to the row with a given primary key.

use crate::gateway::Gateway;
use crate::relation::{Relation, RelationFieldSet, Repository, Stores};
use std::marker::PhantomData;
use vstd::prelude::*;

verus! {

/// Tells how many results a query has.
pub trait QueryMarker {}

/// A query with at most one result.
pub struct One;

/// A query with any number of results.
pub struct All;

/// A query that is not ready to run yet.
pub struct Incomplete;

impl QueryMarker for One {}

impl QueryMarker for All {}

impl QueryMarker for Incomplete {}

/// A query: what it returns, how many results it has, and its parameters.
pub trait Query {
    type ReturnType;
    type QueryMarker: QueryMarker;
    type Parameters;

    fn parameters(&self) -> &Self::Parameters;
}

impl<'a, Q: Query> Query for &'a Q {
    type ReturnType = Q::ReturnType;
    type QueryMarker = Q::QueryMarker;
    type Parameters = Q::Parameters;

    fn parameters(&self) -> (p: &Self::Parameters) {
        (*self).parameters()
    }
}

/// A query whose results are cut off after `max` rows.
pub struct Limit<Q> {
    max: usize,
    inner: Q,
}

impl<Q> Limit<Q> {
    /// The most rows the query returns.
    pub closed spec fn max_rows(&self) -> usize {
        self.max
    }

    /// The query that is limited.
    pub closed spec fn inner_query(&self) -> Q {
        self.inner
    }

    /// The most rows the query returns.
    pub fn max(&self) -> (m: usize)
        ensures
            m == self.max_rows(),
    {
        self.max
    }

    /// The query that is limited.
    pub fn inner(&self) -> (q: &Q)
        ensures
            *q == self.inner_query(),
    {
        &self.inner
    }
}

impl<Q: Query> Query for Limit<Q> {
    type ReturnType = Q::ReturnType;
    type QueryMarker = Q::QueryMarker;
    type Parameters = Q::Parameters;

    fn parameters(&self) -> (p: &Q::Parameters) {
        self.inner.parameters()
    }
}

/// The parameters of a lookup by primary key.
pub struct FindParameters<PK> {
    pub id: PK,
}

/// A query narrowed to the row whose primary key is `params.id`; it returns
/// at most one row.
pub struct Find<PK, Q> {
    params: FindParameters<PK>,
    query: Limit<Q>,
}

impl<PK, Q> Find<PK, Q> {
    /// The parameters of the lookup.
    pub closed spec fn find_parameters(&self) -> FindParameters<PK> {
        self.params
    }

    /// The limited query the lookup narrows.
    pub closed spec fn limited(&self) -> Limit<Q> {
        self.query
    }

    /// Looks up `id` in the results of `query`, keeping at most one row.
    fn new(id: PK, query: Q) -> (f: Self)
        ensures
            f.find_parameters().id == id,
            f.limited().max_rows() == 1,
            f.limited().inner_query() == query,
    {
        Find { params: FindParameters { id: id }, query: Limit { max: 1, inner: query } }
    }

    /// The primary key looked up.
    pub fn parameter(&self) -> (id: &PK)
        ensures
            *id == self.find_parameters().id,
    {
        &self.params.id
    }

    /// The limited query the lookup narrows.
    pub fn limit(&self) -> (l: &Limit<Q>)
        ensures
            *l == self.limited(),
    {
        &self.query
    }

    /// The query the lookup narrows, before its limit.
    pub fn inner(&self) -> (q: &Q)
        ensures
            *q == self.limited().inner_query(),
    {
        &self.query.inner
    }
}

impl<PK, Q: Query> Query for Find<PK, Q> {
    type ReturnType = Q::ReturnType;
    type QueryMarker = One;
    type Parameters = FindParameters<PK>;

    fn parameters(&self) -> (p: &FindParameters<PK>)
        ensures
            *p == self.find_parameters(),
    {
        &self.params
    }
}

/// The start of a query: the field set `F` to select.
pub struct Select<F> {
    m: PhantomData<F>,
}

/// Starts a query that selects the field set `F`.
pub fn select<F>() -> (s: Select<F>) {
    Select { m: PhantomData }
}

impl<F> Select<F> {
    /// Selects the fields from the relation `R` they belong to.
    pub fn from<R: Relation>(self) -> (q: SelectFrom<F, R>) where F: RelationFieldSet<Relation = R> {
        SelectFrom { fields: PhantomData, relation: PhantomData }
    }
}

impl<F> Query for Select<F> {
    type ReturnType = F;
    type QueryMarker = Incomplete;
    type Parameters = ();

    fn parameters(&self) -> (p: &()) {
        &()
    }
}

/// A query of the field set `F` of every row of the relation `R`.
pub struct SelectFrom<F, R: Relation> {
    fields: PhantomData<F>,
    relation: PhantomData<R>,
}

impl<F, R: Relation> Query for SelectFrom<F, R> {
    type ReturnType = F;
    type QueryMarker = All;
    type Parameters = ();

    fn parameters(&self) -> (p: &()) {
        &()
    }
}

impl<F, R: Relation> SelectFrom<F, R> {
    /// Cuts the results off after `max` rows.
    pub fn limit(self, max: usize) -> (l: Limit<Self>)
        ensures
            l.max_rows() == max,
            l.inner_query() == self,
    {
        Limit { max: max, inner: self }
    }

    /// Narrows the query to the row whose primary key is `id`.
    pub fn find(self, id: R::PrimaryKey) -> (f: Find<R::PrimaryKey, Self>)
        ensures
            f.find_parameters().id == id,
            f.limited().max_rows() == 1,
            f.limited().inner_query() == self,
    {
        Find::new(id, self)
    }
}

/// A gateway that runs queries with any number of results.
pub trait ExecuteAll<ReturnType>: Gateway {
    type Error;

    fn execute_query<Q: Query<QueryMarker = All, ReturnType = ReturnType>>(&self, q: &Q) -> Vec<
        ReturnType,
    >;
}

/// A gateway that runs queries with at most one result.
pub trait ExecuteOne<ReturnType, Parameters>: Gateway {
    type Error;

    fn execute_query<Q: Query<QueryMarker = One, ReturnType = ReturnType, Parameters = Parameters>>(
        &self,
        q: &Q,
    ) -> Option<ReturnType>;
}

/// A query that runs against a repository that stores the relation `R`.
pub trait Execute<Repos: Repository, R: Relation, ReturnType>: Query<ReturnType = ReturnType> {
    type Output;

    fn execute(&self, repos: &Repos) -> Self::Output where Repos: Stores<R>;
}

impl<Repos: Repository, F, R: Relation> Execute<Repos, R, F> for SelectFrom<F, R> where
    Repos::Gateway: ExecuteAll<F>,
 {
    type Output = Vec<F>;

    /// The repository's gateway runs the query: the rows are exactly those
    /// that its `execute_query` gave for this query, none dropped, added or
    /// reordered.
    fn execute(&self, repos: &Repos) -> (rows: Vec<F>) where Repos: Stores<R>
        ensures
            exists|g: &Repos::Gateway|
                call_ensures(Repos::gateway, (repos,), g) && call_ensures(
                    <Repos::Gateway as ExecuteAll<F>>::execute_query::<Self>,
                    (g, self),
                    rows,
                ),
    {
        ExecuteAll::execute_query(repos.gateway(), self)
    }
}

impl<Repos: Repository, F, R: Relation> Execute<Repos, R, F> for Find<
    R::PrimaryKey,
    SelectFrom<F, R>,
> where Repos::Gateway: ExecuteOne<F, FindParameters<R::PrimaryKey>> {
    type Output = Option<F>;

    /// The repository's gateway runs the lookup: the row is exactly what its
    /// `execute_query` gave for this lookup.
    fn execute(&self, repos: &Repos) -> (row: Option<F>) where Repos: Stores<R>
        ensures
            exists|g: &Repos::Gateway|
                call_ensures(Repos::gateway, (repos,), g) && call_ensures(
                    <Repos::Gateway as ExecuteOne<F, FindParameters<R::PrimaryKey>>>::execute_query::<
                        Self,
                    >,
                    (g, self),
                    row,
                ),
    {
        ExecuteOne::execute_query(repos.gateway(), self)
    }
}

} // verus!
