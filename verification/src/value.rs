//! A witness value that may not be known yet.

use vstd::prelude::*;
use crate::field::{add_mod, Field};

verus! {

/// A value that a circuit may or may not have been given.
///
/// A circuit built for its shape alone carries unknown values; combining
/// values keeps the result unknown as soon as one operand is.
#[derive(Clone, Copy, Debug)]
pub struct Value<V> {
    inner: Option<V>,
}

impl<V> View for Value<V> {
    type V = Option<V>;

    closed spec fn view(&self) -> Option<V> {
        self.inner
    }
}

impl<V> Value<V> {
    /// A value that has not been supplied.
    pub fn unknown() -> (r: Self)
        ensures
            r@ == None::<V>,
    {
        Value { inner: None }
    }

    /// A value that has been supplied.
    pub fn known(value: V) -> (r: Self)
        ensures
            r@ == Some(value),
    {
        Value { inner: Some(value) }
    }

    /// The value, if it is known.
    pub fn into_option(self) -> (r: Option<V>)
        ensures
            r == self@,
    {
        self.inner
    }

    /// Pairs two values: known exactly when both are.
    pub fn zip<W>(self, other: Value<W>) -> (r: Value<(V, W)>)
        ensures
            r@ == match (self@, other@) {
                (Some(a), Some(b)) => Some((a, b)),
                _ => None,
            },
    {
        match self.inner {
            Some(a) => match other.inner {
                Some(b) => Value { inner: Some((a, b)) },
                None => Value { inner: None },
            },
            None => Value { inner: None },
        }
    }

    /// Applies `f` to the value if it is known, and never calls it otherwise.
    pub fn map<W, G: FnOnce(V) -> W>(self, f: G) -> (r: Value<W>)
        requires
            self@ matches Some(v) ==> f.requires((v,)),
        ensures
            self@ is None ==> r@ is None,
            self@ matches Some(v) ==> r@ is Some && f.ensures((v,), r@->0),
    {
        match self.inner {
            Some(v) => Value { inner: Some(f(v)) },
            None => Value { inner: None },
        }
    }
}

impl<F: Field> Value<F> {
    /// The residue of the field element, if it is known.
    pub open spec fn residue(self) -> Option<nat> {
        match self@ {
            Some(x) => Some(x.residue()),
            None => None,
        }
    }
}

/// The residue of the sum of two witness values: unknown as soon as one of
/// them is.
pub open spec fn add_known(a: Option<nat>, b: Option<nat>, m: nat) -> Option<nat> {
    match (a, b) {
        (Some(x), Some(y)) => Some(add_mod(x, y, m)),
        _ => None,
    }
}

} // verus!
