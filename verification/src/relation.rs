//! Relations (tables), their fields, the repositories that store them, and
//! the relationships between them.

use crate::fieldset::{Field, FieldSet, FieldType, ModelMappedFieldSet, PrimaryField};
use crate::gateway::Gateway;
use crate::key::Key;
use crate::text::str_views;
use crate::wrapper::{ModelLifeCycle, Wrapper};
use vstd::prelude::*;

verus! {

/// A relation of the database, such as a table: the model it stores, its
/// primary key, and how a stored model is turned into columns.
pub trait Relation {
    type PrimaryKey: Key + FieldType;
    type PrimaryField: RelationField + PrimaryField;
    type Model;
    type Fields: ModelMappedFieldSet<Model = Self::Model>;
    type Wrapper: Wrapper<Wrapping = Self::Model> + ModelLifeCycle<PrimaryKey = Self::PrimaryKey>;

    /// The columns a stored model is written as: pairs of column name and
    /// SQL value.
    spec fn columns_of(model: Self::Wrapper) -> Seq<(Seq<char>, Seq<char>)>;

    /// The name of the relation in the database.
    spec fn table() -> Seq<char>;

    /// The columns of a stored model, as pairs of column name and SQL value.
    fn hydrate(model: &Self::Wrapper) -> (h: Vec<(String, String)>)
        ensures
            column_views(h@) == Self::columns_of(*model),
    ;

    /// The name of the relation in the database.
    fn name() -> (n: &'static str)
        ensures
            n@ == Self::table(),
    ;
}

/// The views of hydrated columns.
pub open spec fn column_views(fields: Seq<(String, String)>) -> Seq<(Seq<char>, Seq<char>)> {
    fields.map_values(|f: (String, String)| (f.0@, f.1@))
}

/// A field of a relation, with its column name.
pub trait RelationField: Field {
    type Relation;

    /// The field's column name.
    spec fn column() -> Seq<char>;

    fn name() -> (n: &'static str)
        ensures
            n@ == Self::column(),
    ;
}

/// A set of fields of one relation, with their column names.
pub trait RelationFieldSet: FieldSet {
    type Relation;

    /// The column names of the fields, in order.
    spec fn columns() -> Seq<Seq<char>>;

    fn names() -> (names: Vec<&'static str>)
        ensures
            str_views(names@) == Self::columns(),
    ;
}

impl<A: RelationField<Relation = R>, R: Relation> RelationFieldSet for (A,) {
    type Relation = R;

    open spec fn columns() -> Seq<Seq<char>> {
        seq![A::column()]
    }

    /// The name of the field.
    fn names() -> (names: Vec<&'static str>) {
        let mut vec = Vec::new();
        vec.push(A::name());
        assert(str_views(vec@) =~= seq![A::column()]);
        vec
    }
}

impl<
    A: RelationField<Relation = R>,
    B: RelationField<Relation = R>,
    R: Relation,
> RelationFieldSet for (A, B) {
    type Relation = R;

    open spec fn columns() -> Seq<Seq<char>> {
        seq![A::column(), B::column()]
    }

    /// The names of the two fields, in order.
    fn names() -> (names: Vec<&'static str>) {
        let mut vec = Vec::new();
        vec.push(A::name());
        vec.push(B::name());
        assert(str_views(vec@) =~= seq![A::column(), B::column()]);
        vec
    }
}

/// A relation whose rows are finite in number.
pub trait Finite {}

/// A repository reached through SQL.
pub trait SqlRepos {}

/// An abstract store of data, tied to the gateway that reaches it.
pub trait Repository {
    type Gateway: Gateway;

    fn gateway(&self) -> &Self::Gateway;
}

/// The repository stores the relation `R`.
pub trait Stores<R>: Repository {}

/// A repository that stores two relations stores the pair of them.
impl<A, B, T: Stores<A> + Stores<B>> Stores<(A, B)> for T {}

/// One model of `Of` has many models of `To`.
pub trait HasManyRelationShip {
    type Of: Relation;
    type To: Relation;
}

/// A model of `Source` belongs to a model of `To`.
pub trait BelongsToRelationship {
    type Source: Relation;
    type To: Relation;
}

/// The name of the relation that a model type is read from.
pub trait RelationName {
    fn relation_name() -> &'static str;
}

} // verus!
