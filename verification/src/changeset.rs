//! Changesets: the inserts to be stored in one repository, possibly into
//! several relations, collected in order and then handed to the gateway in
//! one transaction.
//!
//! A changeset is a chain of parts: it starts empty (`Changeset`), and each
//! `insert` adds a part holding one model, each `inserts` a part (`ChangeList`)
//! that models of one relation are pushed onto. The inserts of a changeset are
//! named by the index of their part in the chain (the first part after the
//! empty start is 0) and their place in the part.

use crate::gateway::{Gateway, Handover, Transaction, TransactionImplementation};
use crate::relation::{Relation, Repository, Stores};
use std::marker::PhantomData;
use vstd::prelude::*;

verus! {

/// The names of the inserts of a list part: part `part`, places `0..n`.
pub open spec fn list_schedule(part: nat, n: nat) -> Seq<(nat, nat)> {
    Seq::new(n, |i: int| (part, i as nat))
}

/// Every insert of a schedule is named once, and lies in one of the first
/// `parts` parts.
pub open spec fn schedule_wf(schedule: Seq<(nat, nat)>, parts: nat) -> bool {
    &&& forall|i: int| 0 <= i < schedule.len() ==> (#[trigger] schedule[i]).0 < parts
    &&& schedule.no_duplicates()
}

proof fn lemma_schedule_wf_push(schedule: Seq<(nat, nat)>, parts: nat)
    requires
        schedule_wf(schedule, parts),
    ensures
        schedule_wf(schedule.push((parts, 0)), parts + 1),
{
    let t = schedule.push((parts, 0));
    assert forall|i: int, j: int| 0 <= i < t.len() && 0 <= j < t.len() && i != j implies t[i]
        != t[j] by {
        if i < schedule.len() && j < schedule.len() {
            assert(schedule[i] != schedule[j]);
        } else if i < schedule.len() {
            assert(schedule[i].0 < parts);
        } else {
            assert(schedule[j].0 < parts);
        }
    }
}

proof fn lemma_schedule_wf_list(schedule: Seq<(nat, nat)>, parts: nat, n: nat)
    requires
        schedule_wf(schedule, parts),
    ensures
        schedule_wf(schedule + list_schedule(parts, n), parts + 1),
{
    let t = schedule + list_schedule(parts, n);
    let l = schedule.len() as int;
    assert forall|i: int| 0 <= i < t.len() implies (#[trigger] t[i]).0 < parts + 1 by {
        if i < l {
            assert(schedule[i].0 < parts);
        }
    }
    assert forall|i: int, j: int| 0 <= i < t.len() && 0 <= j < t.len() && i != j implies t[i]
        != t[j] by {
        if i < l && j < l {
            assert(schedule[i] != schedule[j]);
        } else if i < l {
            assert(schedule[i].0 < parts);
        } else if j < l {
            assert(schedule[j].0 < parts);
        } else {
            assert(t[i].1 == i - l);
            assert(t[j].1 == j - l);
        }
    }
}

/// What a list of operations hands to a transaction: operation `i` named
/// `(part, i)`.
pub open spec fn list_handovers<O: Operation>(ops: Seq<O>, part: nat) -> Seq<Handover> {
    Seq::new(ops.len(), |i: int| ops[i].handover((part, i as nat)))
}

/// A repository can start a changeset.
pub trait Changes: Repository + Sized {
    fn change() -> Changeset<Self>;
}

impl<R: Repository> Changes for R {
    fn change() -> (c: Changeset<R>)
        ensures
            c.parts() == 0,
            c.schedule() == Seq::<(nat, nat)>::empty(),
            c.started() == 0,
            c.finished() == Seq::<Seq<Handover>>::empty(),
    {
        Changeset { relation: PhantomData, started: Ghost(0) }
    }
}

/// One operation of a changeset, handed to a transaction.
pub trait Operation {
    /// What the operation hands to a transaction, named `at`.
    spec fn handover(&self, at: (nat, nat)) -> Handover;

    fn apply_on_transaction<T: TransactionImplementation>(
        &mut self,
        t: &mut Transaction<T>,
        at: Ghost<(nat, nat)>,
    )
        ensures
            final(t).handed() == old(t).handed().push(old(self).handover(at@)),
    ;
}

/// Inserting a model of relation `R`.
pub struct Insert<R: Relation> {
    insert: R::Wrapper,
}

impl<R: Relation> Insert<R> {
    /// The model to be inserted.
    pub closed spec fn model(&self) -> R::Wrapper {
        self.insert
    }

    /// The model to be inserted, read only.
    pub fn get(&self) -> (m: &R::Wrapper)
        ensures
            *m == self.model(),
    {
        &self.insert
    }
}

impl<R: Relation> Operation for Insert<R> {
    /// The relation's name and the columns of the model.
    open spec fn handover(&self, at: (nat, nat)) -> Handover {
        (at, R::table(), R::columns_of(self.model()))
    }

    fn apply_on_transaction<T: TransactionImplementation>(
        &mut self,
        t: &mut Transaction<T>,
        at: Ghost<(nat, nat)>,
    ) {
        t.insert::<R>(&mut self.insert, at);
    }
}

/// A changeset that can grow and be committed to the repository `R`.
pub trait Changeable<R: Repository>: Sized {
    /// The number of parts of the chain.
    spec fn parts(&self) -> nat;

    /// The inserts of the changeset, in the order they are handed to a
    /// transaction.
    spec fn schedule(&self) -> Seq<(nat, nat)>;

    /// What the changeset hands to a transaction, in order.
    spec fn handovers(&self) -> Seq<Handover>;

    /// How many times the start of the changeset has had the gateway start a
    /// transaction: once per build.
    spec fn started(&self) -> nat;

    /// The records the gateway gave back for the transactions it finished for
    /// this changeset (what each was handed), in order.
    spec fn finished(&self) -> Seq<Seq<Handover>>;

    /// The schedule names each insert once, within the parts of the chain.
    proof fn lemma_schedule_wf(&self)
        ensures
            schedule_wf(self.schedule(), self.parts()),
    ;

    /// Adds a part that inserts the model `m` into `Rel`.
    fn insert<Rel: Relation>(self, m: Rel::Wrapper) -> (c: Change<Self, R, Insert<Rel>>) where
        R: Stores<Rel>,
        ensures
            c.after == self,
            c.operation.model() == m,
            c.finished.entries() == Seq::<Seq<Handover>>::empty(),
    ;

    /// Adds a part onto which models of `Rel` can be pushed.
    fn inserts<Rel: Relation>(self) -> (c: ChangeList<Self, R, Insert<Rel>, Rel>) where
        R: Stores<Rel>,
        ensures
            c.after == self,
            c.operations@.len() == 0,
            c.finished.entries() == Seq::<Seq<Handover>>::empty(),
    ;

    /// Has the repository's gateway start one transaction and hands it every
    /// insert of the changeset, in order, each model once; finishes none.
    fn build_transaction(&mut self, repos: &R) -> (t: Transaction<
        <R::Gateway as Gateway>::TransactionImplementation,
    >)
        ensures
            t.handed() == old(self).handovers(),
            final(self).parts() == old(self).parts(),
            final(self).schedule() == old(self).schedule(),
            final(self).started() == old(self).started() + 1,
            final(self).finished() == old(self).finished(),
    ;

    /// Builds the transaction and has the gateway finish it. The empty start
    /// of a changeset commits nothing: it starts and finishes no transaction.
    fn commit(&mut self, repos: &R)
        ensures
            final(self).parts() == old(self).parts(),
            final(self).schedule() == old(self).schedule(),
            old(self).parts() == 0 ==> final(self).started() == old(self).started()
                && final(self).finished() == old(self).finished(),
            old(self).parts() > 0 ==> final(self).started() == old(self).started() + 1
                && final(self).finished() == old(self).finished().push(old(self).handovers()),
    ;
}

/// The empty start of a changeset of repository `R`.
pub struct Changeset<R: Repository> {
    relation: PhantomData<R>,
    started: Ghost<nat>,
}

impl<R: Repository> Changeable<R> for Changeset<R> {
    open spec fn parts(&self) -> nat {
        0
    }

    open spec fn schedule(&self) -> Seq<(nat, nat)> {
        Seq::empty()
    }

    open spec fn handovers(&self) -> Seq<Handover> {
        Seq::empty()
    }

    closed spec fn started(&self) -> nat {
        self.started@
    }

    open spec fn finished(&self) -> Seq<Seq<Handover>> {
        Seq::empty()
    }

    proof fn lemma_schedule_wf(&self) {
    }

    fn insert<Rel: Relation>(self, m: Rel::Wrapper) -> (c: Change<Self, R, Insert<Rel>>) where
        R: Stores<Rel>,
     {
        Change {
            after: self,
            operation: Insert { insert: m },
            marker: PhantomData,
            finished: FinishLog { entries: Ghost(Seq::empty()) },
        }
    }

    fn inserts<Rel: Relation>(self) -> (c: ChangeList<Self, R, Insert<Rel>, Rel>) where
        R: Stores<Rel>,
     {
        ChangeList {
            after: self,
            operations: Vec::new(),
            marker: PhantomData,
            marker_rel: PhantomData,
            finished: FinishLog { entries: Ghost(Seq::empty()) },
        }
    }

    fn build_transaction(&mut self, repos: &R) -> (t: Transaction<
        <R::Gateway as Gateway>::TransactionImplementation,
    >) {
        let t = repos.gateway().start_transaction();
        self.started = Ghost(self.started@ + 1);
        t
    }

    fn commit(&mut self, repos: &R) {
    }
}

/// The records the gateway gave back for the transactions it finished for a
/// part of a changeset, in order. Only the changeset adds to it.
pub struct FinishLog {
    entries: Ghost<Seq<Seq<Handover>>>,
}

impl FinishLog {
    /// The finished transactions, in order.
    pub closed spec fn entries(&self) -> Seq<Seq<Handover>> {
        self.entries@
    }
}

/// A changeset that ends with one operation.
pub struct Change<C: Changeable<R>, R: Repository, O: Operation> {
    pub after: C,
    pub operation: O,
    pub marker: PhantomData<R>,
    pub finished: FinishLog,
}

impl<C: Changeable<R>, R: Repository, O: Operation> Changeable<R> for Change<C, R, O> {
    open spec fn parts(&self) -> nat {
        self.after.parts() + 1
    }

    open spec fn schedule(&self) -> Seq<(nat, nat)> {
        self.after.schedule().push((self.after.parts(), 0))
    }

    open spec fn handovers(&self) -> Seq<Handover> {
        self.after.handovers().push(self.operation.handover((self.after.parts(), 0)))
    }

    open spec fn started(&self) -> nat {
        self.after.started()
    }

    open spec fn finished(&self) -> Seq<Seq<Handover>> {
        self.finished.entries()
    }

    proof fn lemma_schedule_wf(&self) {
        self.after.lemma_schedule_wf();
        lemma_schedule_wf_push(self.after.schedule(), self.after.parts());
    }

    fn insert<Rel: Relation>(self, m: Rel::Wrapper) -> (c: Change<Self, R, Insert<Rel>>) where
        R: Stores<Rel>,
     {
        Change {
            after: self,
            operation: Insert { insert: m },
            marker: PhantomData,
            finished: FinishLog { entries: Ghost(Seq::empty()) },
        }
    }

    fn inserts<Rel: Relation>(self) -> (c: ChangeList<Self, R, Insert<Rel>, Rel>) where
        R: Stores<Rel>,
     {
        ChangeList {
            after: self,
            operations: Vec::new(),
            marker: PhantomData,
            marker_rel: PhantomData,
            finished: FinishLog { entries: Ghost(Seq::empty()) },
        }
    }

    fn build_transaction(&mut self, repos: &R) -> (t: Transaction<
        <R::Gateway as Gateway>::TransactionImplementation,
    >) {
        let ghost part = self.after.parts();
        let mut transaction = self.after.build_transaction(repos);
        self.operation.apply_on_transaction(&mut transaction, Ghost((part, 0nat)));
        transaction
    }

    fn commit(&mut self, repos: &R) {
        let transaction = self.build_transaction(repos);
        let finished = repos.gateway().finish_transaction(transaction);
        self.finished.entries = Ghost(self.finished.entries@.push(finished.handed()));
    }
}

/// A changeset that ends with a list of operations on the relation `Rel`.
pub struct ChangeList<C: Changeable<R>, R: Repository + Stores<Rel>, O: Operation, Rel: Relation> {
    pub after: C,
    pub operations: Vec<O>,
    pub marker: PhantomData<R>,
    pub marker_rel: PhantomData<Rel>,
    pub finished: FinishLog,
}

impl<C: Changeable<R>, R: Repository + Stores<Rel>, Rel: Relation> ChangeList<
    C,
    R,
    Insert<Rel>,
    Rel,
> {
    /// Adds the model `m` to the end of the list.
    pub fn push(&mut self, m: Rel::Wrapper)
        ensures
            final(self).operations@.len() == old(self).operations@.len() + 1,
            forall|i: int|
                0 <= i < old(self).operations@.len() ==> final(self).operations@[i]
                    == old(self).operations@[i],
            final(self).operations@.last().model() == m,
            final(self).after == old(self).after,
            final(self).finished() == old(self).finished(),
            final(self).parts() == old(self).parts(),
            final(self).schedule() == old(self).schedule().push(
                (old(self).after.parts(), old(self).operations@.len()),
            ),
    {
        self.operations.push(Insert { insert: m });
        assert(self.schedule() =~= old(self).schedule().push(
            (old(self).after.parts(), old(self).operations@.len()),
        ));
    }
}

impl<C: Changeable<R>, R: Repository + Stores<L>, O: Operation, L: Relation> Changeable<
    R,
> for ChangeList<C, R, O, L> {
    open spec fn parts(&self) -> nat {
        self.after.parts() + 1
    }

    open spec fn schedule(&self) -> Seq<(nat, nat)> {
        self.after.schedule() + list_schedule(self.after.parts(), self.operations@.len())
    }

    open spec fn handovers(&self) -> Seq<Handover> {
        self.after.handovers() + list_handovers(self.operations@, self.after.parts())
    }

    open spec fn started(&self) -> nat {
        self.after.started()
    }

    open spec fn finished(&self) -> Seq<Seq<Handover>> {
        self.finished.entries()
    }

    proof fn lemma_schedule_wf(&self) {
        self.after.lemma_schedule_wf();
        lemma_schedule_wf_list(self.after.schedule(), self.after.parts(), self.operations@.len());
    }

    fn insert<Rel: Relation>(self, m: Rel::Wrapper) -> (c: Change<
        Self,
        R,
        Insert<Rel>,
    >) where R: Stores<Rel> {
        Change {
            after: self,
            operation: Insert { insert: m },
            marker: PhantomData,
            finished: FinishLog { entries: Ghost(Seq::empty()) },
        }
    }

    fn inserts<Rel: Relation>(self) -> (c: ChangeList<Self, R, Insert<Rel>, Rel>) where
        R: Stores<Rel>,
     {
        let operations: Vec<Insert<Rel>> = Vec::new();
        ChangeList {
            after: self,
            operations,
            marker: PhantomData,
            marker_rel: PhantomData,
            finished: FinishLog { entries: Ghost(Seq::empty()) },
        }
    }

    fn build_transaction(&mut self, repos: &R) -> (t: Transaction<
        <R::Gateway as Gateway>::TransactionImplementation,
    >) {
        let ghost part = self.after.parts();
        let ghost before = self.after.handovers();
        let ghost ops = self.operations@;
        let ghost after_schedule = self.after.schedule();
        let mut transaction = self.after.build_transaction(repos);
        let ghost started = self.after.started();
        let ghost finished = self.finished.entries();
        let n = self.operations.len();
        let mut i: usize = 0;
        assert(before + list_handovers(ops.take(0), part) =~= before);
        while i < n
            invariant
                i <= n,
                n == self.operations@.len(),
                n == ops.len(),
                part == self.after.parts(),
                after_schedule == self.after.schedule(),
                started == self.after.started(),
                finished == self.finished.entries(),
                forall|k: int| i <= k < n ==> #[trigger] self.operations@[k] == ops[k],
                transaction.handed() == before + list_handovers(ops.take(i as int), part),
            decreases n - i,
        {
            proof {
                assert(list_handovers(ops.take(i + 1), part) =~= list_handovers(
                    ops.take(i as int),
                    part,
                ).push(ops[i as int].handover((part, i as nat))));
            }
            self.operations[i].apply_on_transaction(&mut transaction, Ghost((part, i as nat)));
            i = i + 1;
        }
        assert(ops.take(n as int) =~= ops);
        transaction
    }

    fn commit(&mut self, repos: &R) {
        let transaction = self.build_transaction(repos);
        let finished = repos.gateway().finish_transaction(transaction);
        self.finished.entries = Ghost(self.finished.entries@.push(finished.handed()));
    }
}

/// Committing hands each insert of a changeset to the transaction exactly
/// once: no insert is named twice in a changeset's schedule.
pub proof fn law_each_insert_once<R: Repository, C: Changeable<R>>(c: C)
    ensures
        c.schedule().no_duplicates(),
{
    c.lemma_schedule_wf();
}

/// The inserts of an earlier part of a changeset come before those of a later
/// part, and those of a list in the order they were pushed.
pub proof fn law_parts_in_order<
    C: Changeable<R>,
    R: Repository + Stores<A> + Stores<B>,
    A: Relation,
    B: Relation,
>(c: ChangeList<ChangeList<C, R, Insert<A>, A>, R, Insert<B>, B>)
    ensures
        c.schedule() == c.after.after.schedule() + list_schedule(
            c.after.after.parts(),
            c.after.operations@.len(),
        ) + list_schedule(c.after.after.parts() + 1, c.operations@.len()),
{
}

/// A list part hands the models pushed onto it to the transaction after
/// everything before it, each once, in the order they were pushed: the
/// `i`-th pushed model goes to its relation as insert `i` of the part.
pub proof fn law_pushed_models_in_order<C: Changeable<R>, R: Repository + Stores<Rel>, Rel: Relation>(
    c: ChangeList<C, R, Insert<Rel>, Rel>,
)
    ensures
        c.handovers().len() == c.after.handovers().len() + c.operations@.len(),
        c.handovers().subrange(0, c.after.handovers().len() as int) == c.after.handovers(),
        forall|i: int|
            0 <= i < c.operations@.len() ==> #[trigger] c.handovers()[c.after.handovers().len() + i]
                == ((c.after.parts(), i as nat), Rel::table(), Rel::columns_of(
                c.operations@[i].model(),
            )),
{
    let h = c.handovers();
    let b = c.after.handovers();
    assert(h.subrange(0, b.len() as int) =~= b);
    assert forall|i: int| 0 <= i < c.operations@.len() implies #[trigger] h[b.len() + i] == (
    (c.after.parts(), i as nat),
    Rel::table(),
    Rel::columns_of(c.operations@[i].model()),
    ) by {
        assert(list_handovers(c.operations@, c.after.parts())[i] == c.operations@[i].handover(
            (c.after.parts(), i as nat),
        ));
    }
}

} // verus!
