//! Fields of models and sets of them: a query selects either a complete set,
//! that is every field of a model, or a sparse set of some fields.

use vstd::prelude::*;

verus! {

/// A type that a field of a model can have.
pub trait FieldType {}

impl FieldType for String {}

impl FieldType for i64 {}

impl FieldType for u64 {}

impl<T: FieldType> FieldType for Option<T> {}

/// Tells whether a field set covers all fields of a model.
pub trait FieldSetMarker {
    /// Every field of the model is selected.
    spec fn covers_all() -> bool;

    /// True when every field of the model is selected.
    fn selects_all() -> (all: bool)
        ensures
            all == Self::covers_all(),
    ;
}

/// A field set that covers all fields of a model.
pub struct Complete;

/// A field set that covers some fields of a model.
pub struct Sparse;

impl FieldSetMarker for Complete {
    open spec fn covers_all() -> bool {
        true
    }

    fn selects_all() -> (all: bool) {
        true
    }
}

impl FieldSetMarker for Sparse {
    open spec fn covers_all() -> bool {
        false
    }

    fn selects_all() -> (all: bool) {
        false
    }
}

/// A field of a model.
pub trait Field {
    type Type: FieldType;
}

/// Marks the field that holds the primary key.
pub trait PrimaryField: Field {}

/// A set of fields.
pub trait FieldSet {
    type Marker: FieldSetMarker;
}

/// A complete field set that maps onto a model.
pub trait ModelMappedFieldSet: FieldSet<Marker = Complete> {
    type Model;
}

/// A single field is a sparse field set.
impl<A: Field> FieldSet for (A,) {
    type Marker = Sparse;
}

/// Two fields form a sparse field set.
impl<A: Field, B: Field> FieldSet for (A, B) {
    type Marker = Sparse;
}

/// The field set that stands for a type.
pub trait AssociatedFieldSet {
    type Set: FieldSet;
}

impl<F: FieldSet> AssociatedFieldSet for F {
    type Set = F;
}

/// Builds a model out of the values of a complete field set.
pub trait ToModel<F: ModelMappedFieldSet> {
    fn create(self) -> F::Model;
}

} // verus!
