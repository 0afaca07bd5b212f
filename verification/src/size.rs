//! The stack footprint of each marshallable type.
//!
//! The footprint is a static property of the type: the exact number of
//! slots its written form occupies.  A mismatch between the claimed
//! footprint and the actual pushes would corrupt the stack protocol for
//! every later operation, so the push and read contracts are stated
//! against [`Size::size_spec`] throughout.

use vstd::prelude::*;
use crate::nil;
use crate::value::LuaValue;
use crate::value::NumBits;
use crate::borrow::LuaRef;

verus! {

/// The number of stack slots a type's written form occupies.
pub trait Size {
    /// The footprint as the specification sees it.
    spec fn size_spec() -> int;

    /// The footprint, exactly [`Size::size_spec`].
    fn size() -> (r: i32)
        ensures
            r == Self::size_spec(),
            0 <= Self::size_spec() <= 8001,
    ;
}

impl Size for bool {
    open spec fn size_spec() -> int {
        1
    }

    fn size() -> i32 {
        1
    }
}

impl Size for i8 {
    open spec fn size_spec() -> int {
        1
    }

    fn size() -> i32 {
        1
    }
}

impl Size for i16 {
    open spec fn size_spec() -> int {
        1
    }

    fn size() -> i32 {
        1
    }
}

impl Size for i32 {
    open spec fn size_spec() -> int {
        1
    }

    fn size() -> i32 {
        1
    }
}

impl Size for u8 {
    open spec fn size_spec() -> int {
        1
    }

    fn size() -> i32 {
        1
    }
}

impl Size for u16 {
    open spec fn size_spec() -> int {
        1
    }

    fn size() -> i32 {
        1
    }
}

impl Size for u32 {
    open spec fn size_spec() -> int {
        1
    }

    fn size() -> i32 {
        1
    }
}

impl Size for String {
    open spec fn size_spec() -> int {
        1
    }

    fn size() -> i32 {
        1
    }
}

impl<'a> Size for &'a str {
    open spec fn size_spec() -> int {
        1
    }

    fn size() -> i32 {
        1
    }
}

impl Size for nil {
    open spec fn size_spec() -> int {
        1
    }

    fn size() -> i32 {
        1
    }
}

impl Size for NumBits {
    open spec fn size_spec() -> int {
        1
    }

    fn size() -> i32 {
        1
    }
}

impl Size for LuaValue {
    open spec fn size_spec() -> int {
        1
    }

    fn size() -> i32 {
        1
    }
}

impl<T: Size> Size for Option<T> {
    open spec fn size_spec() -> int {
        T::size_spec()
    }

    fn size() -> i32 {
        T::size()
    }
}

impl Size for LuaRef {
    open spec fn size_spec() -> int {
        1
    }

    fn size() -> i32 {
        1
    }
}

/// A composite footprint is the exact sum of its members' — up to the
/// runtime's stack ceiling.  A footprint above the ceiling can never be
/// written at all (no push has room for it), so the cap is outside the
/// protocol's realizable range and exactness holds for every writable
/// type.
pub open spec fn capped_sum(n: int) -> int {
    if n <= 8001 {
        n
    } else {
        8001
    }
}

impl<A: Size, B: Size> Size for (A, B) {
    open spec fn size_spec() -> int {
        capped_sum(A::size_spec() + B::size_spec())
    }

    fn size() -> i32 {
        let s = A::size() + B::size();
        if s <= 8001 {
            s
        } else {
            8001
        }
    }
}

impl<A: Size, B: Size, C: Size> Size for (A, B, C) {
    open spec fn size_spec() -> int {
        capped_sum(A::size_spec() + B::size_spec() + C::size_spec())
    }

    fn size() -> i32 {
        let s = A::size() + B::size() + C::size();
        if s <= 8001 {
            s
        } else {
            8001
        }
    }
}

impl<A: Size, B: Size, C: Size, D: Size> Size for (A, B, C, D) {
    open spec fn size_spec() -> int {
        capped_sum(A::size_spec() + B::size_spec() + C::size_spec() + D::size_spec())
    }

    fn size() -> i32 {
        let s = A::size() + B::size() + C::size() + D::size();
        if s <= 8001 {
            s
        } else {
            8001
        }
    }
}


impl<A: Size, B: Size, C: Size, D: Size, E: Size> Size for (A, B, C, D, E) {
    open spec fn size_spec() -> int {
        capped_sum(A::size_spec() + B::size_spec() + C::size_spec() + D::size_spec() + E::size_spec())
    }

    fn size() -> i32 {
        let s = A::size() + B::size() + C::size() + D::size() + E::size();
        if s <= 8001 {
            s
        } else {
            8001
        }
    }
}

impl<A: Size, B: Size, C: Size, D: Size, E: Size, F: Size> Size for (A, B, C, D, E, F) {
    open spec fn size_spec() -> int {
        capped_sum(A::size_spec() + B::size_spec() + C::size_spec() + D::size_spec() + E::size_spec() + F::size_spec())
    }

    fn size() -> i32 {
        let s = A::size() + B::size() + C::size() + D::size() + E::size() + F::size();
        if s <= 8001 {
            s
        } else {
            8001
        }
    }
}

impl<A: Size, B: Size, C: Size, D: Size, E: Size, F: Size, G: Size> Size for (A, B, C, D, E, F, G) {
    open spec fn size_spec() -> int {
        capped_sum(A::size_spec() + B::size_spec() + C::size_spec() + D::size_spec() + E::size_spec() + F::size_spec() + G::size_spec())
    }

    fn size() -> i32 {
        let s = A::size() + B::size() + C::size() + D::size() + E::size() + F::size() + G::size();
        if s <= 8001 {
            s
        } else {
            8001
        }
    }
}

impl<A: Size, B: Size, C: Size, D: Size, E: Size, F: Size, G: Size, H: Size> Size for (A, B, C, D, E, F, G, H) {
    open spec fn size_spec() -> int {
        capped_sum(A::size_spec() + B::size_spec() + C::size_spec() + D::size_spec() + E::size_spec() + F::size_spec() + G::size_spec() + H::size_spec())
    }

    fn size() -> i32 {
        let s = A::size() + B::size() + C::size() + D::size() + E::size() + F::size() + G::size() + H::size();
        if s <= 8001 {
            s
        } else {
            8001
        }
    }
}

impl<A: Size, B: Size, C: Size, D: Size, E: Size, F: Size, G: Size, H: Size, I: Size> Size for (A, B, C, D, E, F, G, H, I) {
    open spec fn size_spec() -> int {
        capped_sum(A::size_spec() + B::size_spec() + C::size_spec() + D::size_spec() + E::size_spec() + F::size_spec() + G::size_spec() + H::size_spec() + I::size_spec())
    }

    fn size() -> i32 {
        let s = A::size() + B::size() + C::size() + D::size() + E::size() + F::size() + G::size() + H::size() + I::size();
        if s <= 8001 {
            s
        } else {
            8001
        }
    }
}

impl<A: Size, B: Size, C: Size, D: Size, E: Size, F: Size, G: Size, H: Size, I: Size, J: Size> Size for (A, B, C, D, E, F, G, H, I, J) {
    open spec fn size_spec() -> int {
        capped_sum(A::size_spec() + B::size_spec() + C::size_spec() + D::size_spec() + E::size_spec() + F::size_spec() + G::size_spec() + H::size_spec() + I::size_spec() + J::size_spec())
    }

    fn size() -> i32 {
        let s = A::size() + B::size() + C::size() + D::size() + E::size() + F::size() + G::size() + H::size() + I::size() + J::size();
        if s <= 8001 {
            s
        } else {
            8001
        }
    }
}

impl<A: Size, B: Size, C: Size, D: Size, E: Size, F: Size, G: Size, H: Size, I: Size, J: Size, K: Size> Size for (A, B, C, D, E, F, G, H, I, J, K) {
    open spec fn size_spec() -> int {
        capped_sum(A::size_spec() + B::size_spec() + C::size_spec() + D::size_spec() + E::size_spec() + F::size_spec() + G::size_spec() + H::size_spec() + I::size_spec() + J::size_spec() + K::size_spec())
    }

    fn size() -> i32 {
        let s = A::size() + B::size() + C::size() + D::size() + E::size() + F::size() + G::size() + H::size() + I::size() + J::size() + K::size();
        if s <= 8001 {
            s
        } else {
            8001
        }
    }
}

impl<A: Size, B: Size, C: Size, D: Size, E: Size, F: Size, G: Size, H: Size, I: Size, J: Size, K: Size, L: Size> Size for (A, B, C, D, E, F, G, H, I, J, K, L) {
    open spec fn size_spec() -> int {
        capped_sum(A::size_spec() + B::size_spec() + C::size_spec() + D::size_spec() + E::size_spec() + F::size_spec() + G::size_spec() + H::size_spec() + I::size_spec() + J::size_spec() + K::size_spec() + L::size_spec())
    }

    fn size() -> i32 {
        let s = A::size() + B::size() + C::size() + D::size() + E::size() + F::size() + G::size() + H::size() + I::size() + J::size() + K::size() + L::size();
        if s <= 8001 {
            s
        } else {
            8001
        }
    }
}

} // verus!
