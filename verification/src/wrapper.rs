//! Wrappers around models, the life cycle events that a gateway reports to a
//! stored model, and `Keyed`, the wrapper that remembers a model's primary key.

use crate::key::Key;
use vstd::prelude::*;

verus! {

/// Wraps a model into a value that can be stored.
pub trait Wrapper {
    type Wrapping;
    type Returning;

    /// What `wrap` makes of the model `m`.
    spec fn wrapped(m: Self::Wrapping) -> Self::Returning;

    fn wrap(m: Self::Wrapping) -> (w: Self::Returning)
        ensures
            w == Self::wrapped(m),
    ;
}

/// Events in the life of a stored model.
pub trait ModelLifeCycle: Wrapper + Sized {
    type PrimaryKey: Key;

    /// How a model changes when told it was stored under the key whose bytes
    /// are `primary_key`: from `before` to `after`.
    spec fn created_with(before: Self, after: Self, primary_key: Seq<u8>) -> bool;

    /// Whether `created` reads the key from the bytes, which takes eight of
    /// them.
    spec fn reads_key() -> bool;

    /// The gateway has stored the model under the key whose bytes are given.
    fn created(&mut self, primary_key: &[u8])
        requires
            Self::reads_key() ==> primary_key@.len() >= 8,
        ensures
            Self::created_with(*old(self), *final(self), primary_key@),
    ;
}

/// A model together with its primary key, once it has one.
#[derive(Debug)]
pub struct Keyed<PK: Key, W: Wrapper + ModelLifeCycle> {
    pub pk: Option<PK>,
    m: W,
}

impl<PK: Key, W: Wrapper<Returning = W> + ModelLifeCycle> Keyed<PK, W> {
    /// A model that has not been stored yet.
    pub fn new(w: W) -> (k: Keyed<PK, W>)
        ensures
            k.key() is None,
            k.model() == w,
    {
        Keyed { pk: None, m: w }
    }
}

impl<PK: Key, W: Wrapper + ModelLifeCycle> Keyed<PK, W> {
    /// The primary key, once the model has one.
    pub closed spec fn key(&self) -> Option<PK> {
        self.pk
    }

    /// The wrapped model.
    pub closed spec fn model(&self) -> W {
        self.m
    }

    /// A model that was read back from storage under the key `pk`.
    pub fn with_key(pk: PK, w: W) -> (k: Keyed<PK, W>)
        ensures
            k.key() == Some(pk),
            k.model() == w,
    {
        Keyed { pk: Some(pk), m: w }
    }

    /// The primary key, read only.
    pub fn primary_key(&self) -> (k: &Option<PK>)
        ensures
            *k == self.key(),
    {
        &self.pk
    }

    /// The wrapped model, read only.
    pub fn deref(&self) -> (w: &W)
        ensures
            *w == self.model(),
    {
        &self.m
    }

    /// Replaces the wrapped model, keeping the key.
    pub fn set_model(&mut self, w: W)
        ensures
            final(self).key() == old(self).key(),
            final(self).model() == w,
    {
        self.m = w;
    }

    /// Takes the wrapped model out, dropping the key.
    pub fn into_model(self) -> (w: W)
        ensures
            w == self.model(),
    {
        self.m
    }
}

impl<PK: Key, W: Wrapper<Returning = W> + ModelLifeCycle> Wrapper for Keyed<PK, W> {
    type Wrapping = W::Wrapping;
    type Returning = Self;

    /// The wrapped model, without a key.
    closed spec fn wrapped(m: W::Wrapping) -> Self {
        Keyed { pk: None, m: W::wrapped(m) }
    }

    /// Wraps the model and leaves the key empty.
    fn wrap(m: W::Wrapping) -> (k: Self)
        ensures
            k.key() is None,
            k.model() == W::wrapped(m),
    {
        let wrapped = W::wrap(m);
        Keyed { pk: None, m: wrapped }
    }
}

impl<PK: Key, W: Wrapper<Returning = W> + ModelLifeCycle<PrimaryKey = PK>> ModelLifeCycle for Keyed<
    PK,
    W,
> {
    type PrimaryKey = PK;

    /// The key is the one read from the bytes, and the wrapped model changes
    /// as it does when told itself.
    open spec fn created_with(before: Self, after: Self, primary_key: Seq<u8>) -> bool {
        &&& after.key() == Some(PK::key_of(primary_key))
        &&& W::created_with(before.model(), after.model(), primary_key)
    }

    /// The key is read from the bytes.
    open spec fn reads_key() -> bool {
        true
    }

    /// Remembers the key, then tells the wrapped model.
    fn created(&mut self, primary_key: &[u8]) {
        self.pk = Some(PK::from_bytes(primary_key));
        self.m.created(primary_key);
    }
}

} // verus!
