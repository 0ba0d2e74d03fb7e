//! An iterator over nothing.

use std::marker::PhantomData;
use vstd::prelude::*;

verus! {

/// A sequence of `T` that holds no item: every call of `next` finds it at its end.
pub struct NoneIterator<T> {
    _marker: PhantomData<T>,
}

impl<T> View for NoneIterator<T> {
    type V = Seq<T>;

    /// The items still to come: none.
    open spec fn view(&self) -> Seq<T> {
        Seq::empty()
    }
}

impl<T> NoneIterator<T> {
    /// The empty sequence.
    pub fn new() -> (r: Self)
        ensures
            r@ == Seq::<T>::empty(),
    {
        NoneIterator { _marker: PhantomData }
    }

    /// The next item: there is never one, however often this is asked.
    pub fn next(&mut self) -> (r: Option<T>)
        ensures
            r is None,
            final(self)@ == old(self)@,
    {
        None
    }
}

} // verus!
