use vstd::prelude::*;

use crate::address::{Address, Dimension};
use crate::coordinate::{Coordinate, Integral};
use core::ops::Range;

verus! {

/// Whether `address` lies within the half-open box `[lower, upper)`, in every
/// dimension.
pub open spec fn within<V: Coordinate, A: Address<V, DIMENSION>, const DIMENSION: usize>(
    lower: A,
    upper: A,
    address: A,
) -> bool {
    forall|d: int|
        0 <= d < DIMENSION ==> {
            &&& lower.coordinate_spec(d).int_value() <= #[trigger] address.coordinate_spec(
                d,
            ).int_value()
            &&& address.coordinate_spec(d).int_value() < upper.coordinate_spec(d).int_value()
        }
}

/// Tensor is a generic multidimensional store: a bounded address space, and
/// checked access to the cell at each address in it.
pub trait Tensor<T, V: Coordinate, A: Address<V, DIMENSION>, const DIMENSION: usize>: Sized {
    /// Whether the store is well formed.
    spec fn wf(&self) -> bool;

    /// The origin of the address space (inclusive).
    spec fn lower(&self) -> A;

    /// The far end of the address space (exclusive in every dimension).
    spec fn upper(&self) -> A;

    /// The value stored at an address within the bounds.
    spec fn cell(&self, address: A) -> T;

    /// range provides the bounds of the address space.
    fn range(&self) -> (r: Range<A>)
        requires
            self.wf(),
        ensures
            r.start == self.lower(),
            r.end == self.upper(),
    ;

    /// contains is true if the address lies within the bounds in every dimension.
    fn contains(&self, address: &A) -> (r: bool)
        requires
            self.wf(),
        ensures
            r == within::<V, A, DIMENSION>(self.lower(), self.upper(), *address),
    {
        let range = self.range();
        let mut d: Dimension = 0;
        while d < DIMENSION
            invariant
                d <= DIMENSION,
                range.start == self.lower(),
                range.end == self.upper(),
                forall|e: int|
                    0 <= e < d ==> {
                        &&& self.lower().coordinate_spec(e).int_value()
                            <= #[trigger] address.coordinate_spec(e).int_value()
                        &&& address.coordinate_spec(e).int_value()
                            < self.upper().coordinate_spec(e).int_value()
                    },
            decreases DIMENSION - d,
        {
            let v = address.coordinate(d);
            let low = range.start.coordinate(d);
            let high = range.end.coordinate(d);
            if v.precedes(&low) || !v.precedes(&high) {
                return false;
            }
            d += 1;
        }
        true
    }

    /// An out-of-range-safe read of the cell at an address.
    fn get(&self, address: A) -> (r: Option<&T>)
        requires
            self.wf(),
        ensures
            r is Some <==> within::<V, A, DIMENSION>(self.lower(), self.upper(), address),
            r is Some ==> *r->0 == self.cell(address),
    ;

    /// Direct read of the cell at an address, which must lie within the bounds.
    fn index(&self, address: A) -> (r: &T)
        requires
            self.wf(),
            within::<V, A, DIMENSION>(self.lower(), self.upper(), address),
        ensures
            *r == self.cell(address),
    {
        self.get(address).unwrap()
    }

    /// Direct mutable access to the cell at an address, which must lie within
    /// the bounds. Writing through the reference changes that cell alone.
    fn index_mut(&mut self, address: A) -> (r: &mut T)
        requires
            old(self).wf(),
            within::<V, A, DIMENSION>(old(self).lower(), old(self).upper(), address),
        ensures
            *r == old(self).cell(address),
            final(self).wf(),
            final(self).lower() == old(self).lower(),
            final(self).upper() == old(self).upper(),
            final(self).cell(address) == *final(r),
            forall|b: A|
                within::<V, A, DIMENSION>(old(self).lower(), old(self).upper(), b) && b != address
                    ==> #[trigger] final(self).cell(b) == old(self).cell(b),
    {
        self.get_mut(address).unwrap()
    }

    /// An out-of-range-safe mutable access to the cell at an address. Writing
    /// through the reference changes that cell alone.
    fn get_mut(&mut self, address: A) -> (r: Option<&mut T>)
        requires
            old(self).wf(),
        ensures
            r is Some <==> within::<V, A, DIMENSION>(old(self).lower(), old(self).upper(), address),
            r is Some ==> *r->0 == old(self).cell(address),
            final(self).wf(),
            final(self).lower() == old(self).lower(),
            final(self).upper() == old(self).upper(),
            r is Some ==> final(self).cell(address) == *final(r->0),
            forall|b: A|
                within::<V, A, DIMENSION>(old(self).lower(), old(self).upper(), b) && (r is None
                    || b != address) ==> #[trigger] final(self).cell(b) == old(self).cell(b),
    ;
}

} // verus!
