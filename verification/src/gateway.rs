//! Gateways, which carry out all interaction with the storage, and the
//! transactions they hand out.

use crate::relation::Relation;
use vstd::prelude::*;

verus! {

/// Stores models of a relation on behalf of a gateway.
pub trait TransactionImplementation: Sized {
    fn insert<R: Relation>(&mut self, m: &mut R::Wrapper);
}

/// One insert handed to a transaction: where it stands in its changeset
/// (part, place in the part), the relation's name, and the columns of the
/// model as it was when it was handed over.
pub type Handover = ((nat, nat), Seq<char>, Seq<(Seq<char>, Seq<char>)>);

/// A transaction of a gateway. Besides the gateway's own state it keeps a
/// ghost record of the inserts it was handed.
pub struct Transaction<T: TransactionImplementation> {
    transaction: T,
    handed: Ghost<Seq<Handover>>,
}

/// What a gateway gives back when it finishes a transaction: the record of
/// what the transaction was handed. Only `Transaction::finish` makes one.
pub struct Finished {
    handed: Ghost<Seq<Handover>>,
}

impl Finished {
    /// What the finished transaction was handed, in order.
    pub closed spec fn handed(&self) -> Seq<Handover> {
        self.handed@
    }
}

impl<T: TransactionImplementation> Transaction<T> {
    /// The inserts handed to this transaction so far, in order.
    pub closed spec fn handed(&self) -> Seq<Handover> {
        self.handed@
    }

    /// The gateway's own transaction state.
    pub closed spec fn inner(&self) -> T {
        self.transaction
    }

    /// A transaction that has not been handed anything.
    pub fn new(transaction: T) -> (t: Self)
        ensures
            t.inner() == transaction,
            t.handed() == Seq::<Handover>::empty(),
    {
        Transaction { transaction, handed: Ghost(Seq::empty()) }
    }

    /// Hands the model `m` of relation `R` to the gateway's transaction; `at`
    /// names the insert within its changeset.
    pub fn insert<R: Relation>(&mut self, m: &mut R::Wrapper, at: Ghost<(nat, nat)>)
        ensures
            final(self).handed() == old(self).handed().push(
                (at@, R::table(), R::columns_of(*old(m))),
            ),
    {
        let ghost handover = (at@, R::table(), R::columns_of(*m));
        self.transaction.insert::<R>(m);
        self.handed = Ghost(self.handed@.push(handover));
    }

    /// Ends the transaction: the gateway's own transaction, taken out to be
    /// finished, and the record of what it was handed.
    pub fn finish(self) -> (r: (T, Finished))
        ensures
            r.0 == self.inner(),
            r.1.handed() == self.handed(),
    {
        (self.transaction, Finished { handed: self.handed })
    }
}

/// The interface to a storage: it opens and closes transactions.
pub trait Gateway {
    type TransactionImplementation: TransactionImplementation;

    /// A new transaction, not handed anything yet.
    fn start_transaction(&self) -> (t: Transaction<Self::TransactionImplementation>)
        ensures
            t.handed() == Seq::<Handover>::empty(),
    ;

    /// Finishes `transaction`; gives back its record, as `finish` made it.
    fn finish_transaction(&self, transaction: Transaction<Self::TransactionImplementation>) -> (r:
        Finished)
        ensures
            r.handed() == transaction.handed(),
    ;
}

/// The gateway generates keys of type `T` for stored models.
pub trait Autogenerates<T>: Gateway {}

} // verus!
