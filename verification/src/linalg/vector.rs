//! A dense vector with elementwise arithmetic.
//!
//! The model of a [`Vector`] is the sequence of its entries. The three
//! operations are stated over that model by [`scaled`], [`sum`] and
//! [`difference`], which apply the scalar type's own operator
//! specifications entry by entry.

use core::ops::{Add, Mul, Sub};
use vstd::prelude::*;
use vstd::std_specs::ops::{AddSpec, MulSpec, SubSpec};

verus! {

/// Every entry of `v` times `k`, the entry on the left.
pub open spec fn scaled<T: Mul<Output = T>>(v: Seq<T>, k: T) -> Seq<T> {
    Seq::new(v.len(), |i: int| v[i].mul_spec(k))
}

/// Entry by entry `a[i] + b[i]`, over the length of `a`.
pub open spec fn sum<T: Add<Output = T>>(a: Seq<T>, b: Seq<T>) -> Seq<T> {
    Seq::new(a.len(), |i: int| a[i].add_spec(b[i]))
}

/// Entry by entry `a[i] - b[i]`, over the length of `a`.
pub open spec fn difference<T: Sub<Output = T>>(a: Seq<T>, b: Seq<T>) -> Seq<T> {
    Seq::new(a.len(), |i: int| a[i].sub_spec(b[i]))
}

/// A fixed-length sequence of scalars.
pub struct Vector<T> {
    data: Vec<T>,
}

impl<T> View for Vector<T> {
    type V = Seq<T>;

    closed spec fn view(&self) -> Seq<T> {
        self.data@
    }
}

impl<T> Vector<T> {
    /// Wraps `data` without touching its entries.
    pub fn new(data: Vec<T>) -> (v: Self)
        ensures
            v@ == data@,
    {
        Vector { data }
    }

    /// The number of entries.
    pub fn size(&self) -> (n: usize)
        ensures
            n == self@.len(),
    {
        self.data.len()
    }

    /// The entries, borrowed.
    pub fn data(&self) -> (d: &Vec<T>)
        ensures
            d@ == self@,
    {
        &self.data
    }

    /// The entries, by value.
    pub fn into_vec(self) -> (d: Vec<T>)
        ensures
            d@ == self@,
    {
        self.data
    }
}

impl<T: Copy + Mul<Output = T>> Vector<T> {
    /// Multiplies every entry by `k`.
    pub fn scale(&self, k: T) -> (r: Self)
        requires
            forall|i: int| 0 <= i < self@.len() ==> #[trigger] self@[i].mul_req(k),
        ensures
            r@.len() == self@.len(),
            T::obeys_mul_spec() ==> r@ == scaled(self@, k),
    {
        let n: usize = self.data.len();
        let mut out: Vec<T> = Vec::with_capacity(n);
        let mut i: usize = 0;
        while i < n
            invariant
                n == self.data@.len(),
                i <= n,
                out@.len() == i,
                forall|j: int| 0 <= j < self@.len() ==> #[trigger] self@[j].mul_req(k),
                T::obeys_mul_spec() ==> forall|j: int|
                    0 <= j < i ==> out@[j] == #[trigger] self@[j].mul_spec(k),
            decreases n - i,
        {
            assert(self@[i as int].mul_req(k));
            out.push(self.data[i] * k);
            i += 1;
        }
        Vector { data: out }
    }
}

impl<T: Copy + Add<Output = T>> Vector<T> {
    /// Adds `rhs` entry by entry.
    pub fn plus(&self, rhs: &Vector<T>) -> (r: Self)
        requires
            rhs@.len() == self@.len(),
            forall|i: int| 0 <= i < self@.len() ==> #[trigger] self@[i].add_req(rhs@[i]),
        ensures
            r@.len() == self@.len(),
            T::obeys_add_spec() ==> r@ == sum(self@, rhs@),
    {
        let n: usize = self.data.len();
        let mut out: Vec<T> = Vec::with_capacity(n);
        let mut i: usize = 0;
        while i < n
            invariant
                n == self.data@.len(),
                rhs.data@.len() == n,
                i <= n,
                out@.len() == i,
                forall|j: int| 0 <= j < self@.len() ==> #[trigger] self@[j].add_req(rhs@[j]),
                T::obeys_add_spec() ==> forall|j: int|
                    0 <= j < i ==> out@[j] == #[trigger] self@[j].add_spec(rhs@[j]),
            decreases n - i,
        {
            assert(self@[i as int].add_req(rhs@[i as int]));
            out.push(self.data[i] + rhs.data[i]);
            i += 1;
        }
        Vector { data: out }
    }
}

impl<T: Copy + Sub<Output = T>> Vector<T> {
    /// Subtracts `rhs` entry by entry.
    pub fn minus(&self, rhs: &Vector<T>) -> (r: Self)
        requires
            rhs@.len() == self@.len(),
            forall|i: int| 0 <= i < self@.len() ==> #[trigger] self@[i].sub_req(rhs@[i]),
        ensures
            r@.len() == self@.len(),
            T::obeys_sub_spec() ==> r@ == difference(self@, rhs@),
    {
        let n: usize = self.data.len();
        let mut out: Vec<T> = Vec::with_capacity(n);
        let mut i: usize = 0;
        while i < n
            invariant
                n == self.data@.len(),
                rhs.data@.len() == n,
                i <= n,
                out@.len() == i,
                forall|j: int| 0 <= j < self@.len() ==> #[trigger] self@[j].sub_req(rhs@[j]),
                T::obeys_sub_spec() ==> forall|j: int|
                    0 <= j < i ==> out@[j] == #[trigger] self@[j].sub_spec(rhs@[j]),
            decreases n - i,
        {
            assert(self@[i as int].sub_req(rhs@[i as int]));
            out.push(self.data[i] - rhs.data[i]);
            i += 1;
        }
        Vector { data: out }
    }
}

} // verus!
