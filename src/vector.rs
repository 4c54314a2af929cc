use vstd::prelude::*;

use crate::fault::{check_dimensions, Fault};

verus! {

/// A fixed-length, owned, mutable sequence of scalars.
///
/// Its length is set at construction and never changes afterwards.
pub struct Vector<T> {
    data: Vec<T>,
}

impl<T> View for Vector<T> {
    type V = Seq<T>;

    closed spec fn view(&self) -> Seq<T> {
        self.data@
    }
}

impl<T: Copy> Vector<T> {
    /// A vector of `m` elements, each equal to `zero`.
    pub fn new(m: usize, zero: T) -> (r: Vector<T>)
        ensures
            r@ == Seq::new(m as nat, |k: int| zero),
    {
        let mut data: Vec<T> = Vec::with_capacity(m);
        let mut k: usize = 0;
        while k < m
            invariant
                k <= m,
                data@ == Seq::new(k as nat, |t: int| zero),
            decreases m - k,
        {
            data.push(zero);
            k = k + 1;
        }
        Vector { data }
    }

    /// A vector holding the elements of `data`, in order.
    pub fn from_vec(data: Vec<T>) -> (r: Vector<T>)
        ensures
            r@ == data@,
    {
        Vector { data }
    }

    /// Sets every element to `value`; the length is kept.
    pub fn fill(&mut self, value: T)
        ensures
            final(self)@ == Seq::new(old(self)@.len(), |k: int| value),
    {
        let n = self.data.len();
        let mut k: usize = 0;
        while k < n
            invariant
                k <= n,
                n == self@.len(),
                n == old(self)@.len(),
                forall|t: int| 0 <= t < k ==> self@[t] == value,
            decreases n - k,
        {
            self.data.set(k, value);
            k = k + 1;
        }
        assert(self@ =~= Seq::new(n as nat, |t: int| value));
    }

    /// The number of elements.
    pub fn len(&self) -> (r: usize)
        ensures
            r == self@.len(),
    {
        self.data.len()
    }

    /// The element at `i`.
    pub fn get(&self, i: usize) -> (r: Result<T, Fault>)
        ensures
            r == (if i < self@.len() { Ok::<T, Fault>(self@[i as int]) } else { Err(Fault::OutOfBounds) }),
    {
        if i < self.data.len() {
            Ok(self.data[i])
        } else {
            Err(Fault::OutOfBounds)
        }
    }

    /// Replaces the element at `i` by `x`; nothing changes on a fault.
    pub fn set(&mut self, i: usize, x: T) -> (r: Result<(), Fault>)
        ensures
            r == (if i < old(self)@.len() { Ok::<(), Fault>(()) } else { Err(Fault::OutOfBounds) }),
            final(self)@ == (if i < old(self)@.len() { old(self)@.update(i as int, x) } else { old(self)@ }),
    {
        if i < self.data.len() {
            self.data.set(i, x);
            Ok(())
        } else {
            Err(Fault::OutOfBounds)
        }
    }

    /// Checks that `other` can be combined elementwise with this vector.
    pub fn check_same_length(&self, other: &Vector<T>) -> (r: Result<(), Fault>)
        ensures
            r == (if self@.len() == other@.len() {
                Ok::<(), Fault>(())
            } else {
                Err(Fault::DimensionMismatch)
            }),
    {
        check_dimensions(self.data.len(), other.data.len())
    }

    /// The elements, in order, in a buffer of their own.
    pub fn to_vec(&self) -> (r: Vec<T>)
        ensures
            r@ == self@,
    {
        self.copy().data
    }

    /// An independent vector with the same elements.
    pub fn copy(&self) -> (r: Vector<T>)
        ensures
            r@ == self@,
    {
        let n = self.data.len();
        let mut data: Vec<T> = Vec::with_capacity(n);
        let mut k: usize = 0;
        while k < n
            invariant
                k <= n,
                n == self@.len(),
                data@ == self@.subrange(0, k as int),
            decreases n - k,
        {
            data.push(self.data[k]);
            k = k + 1;
        }
        assert(data@ =~= self@);
        Vector { data }
    }
}

impl<T: Copy> Clone for Vector<T> {
    fn clone(&self) -> (r: Self)
        ensures
            r@ == self@,
    {
        self.copy()
    }
}

} // verus!
