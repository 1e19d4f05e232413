//! What a modulus type has to offer.
use crate::integer::{Integer, Unsigned};
use vstd::prelude::*;

verus! {

/// An unsigned integer type whose values serve as moduli for operands of
/// type `T`. Keeping the modulus unsigned rules out negative moduli by type,
/// while the arithmetic itself may run on a signed `T`.
pub trait Modulus<T: Integer>: Unsigned {
    /// The modulus as an operand. It has to be a value that `T` holds.
    fn cast(self) -> (r: T)
        requires
            self.as_int() <= T::max_int(),
        ensures
            r.as_int() == self.as_int(),
    ;
}

impl<T: Integer, M: Unsigned> Modulus<T> for M {
    fn cast(self) -> (r: T) {
        T::from_u128(self.to_u128()).expect("cannot convert modulus")
    }
}

} // verus!
