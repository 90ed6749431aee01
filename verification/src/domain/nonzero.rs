//! Integers that are never zero.

use vstd::prelude::*;

verus! {

/// A `u32` that is never zero.
#[derive(Clone, Copy, Debug, PartialEq, Eq, Structural, Hash)]
pub struct NonZeroU32 {
    value: u32,
}

impl View for NonZeroU32 {
    type V = u32;

    closed spec fn view(&self) -> u32 {
        self.value
    }
}

impl NonZeroU32 {
    #[verifier::type_invariant]
    pub open spec fn is_not_zero(self) -> bool {
        self@ != 0
    }

    /// The non-zero integer of this value.
    pub closed spec fn of(value: u32) -> NonZeroU32 {
        NonZeroU32 { value }
    }

    pub proof fn lemma_of(value: u32)
        ensures
            NonZeroU32::of(value)@ == value,
    {
    }

    /// The value as a non-zero integer, or `None` for zero.
    pub fn new(value: u32) -> (result: Option<NonZeroU32>)
        ensures
            result is Some <==> value != 0,
            result matches Some(nonzero) ==> nonzero@ == value,
    {
        if value == 0 {
            None
        } else {
            Some(NonZeroU32 { value })
        }
    }

    /// The smallest non-zero value.
    pub fn min_value() -> (result: NonZeroU32)
        ensures
            result@ == 1,
    {
        NonZeroU32 { value: 1 }
    }

    /// The contained integer.
    pub fn get(self) -> (value: u32)
        ensures
            value == self@,
            value > 0,
    {
        proof {
            use_type_invariant(&self);
        }
        self.value
    }
}

/// Two non-zero integers with the same value are the same.
pub broadcast proof fn lemma_nonzero_u32_identity(a: NonZeroU32, b: NonZeroU32)
    ensures
        (#[trigger] a@ == #[trigger] b@) ==> a == b,
{
}

/// A `u16` that is never zero.
#[derive(Clone, Copy, Debug, PartialEq, Eq, Structural, Hash)]
pub struct NonZeroU16 {
    value: u16,
}

impl View for NonZeroU16 {
    type V = u16;

    closed spec fn view(&self) -> u16 {
        self.value
    }
}

impl NonZeroU16 {
    #[verifier::type_invariant]
    pub open spec fn is_not_zero(self) -> bool {
        self@ != 0
    }

    /// The value as a non-zero integer, or `None` for zero.
    pub fn new(value: u16) -> (result: Option<NonZeroU16>)
        ensures
            result is Some <==> value != 0,
            result matches Some(nonzero) ==> nonzero@ == value,
    {
        if value == 0 {
            None
        } else {
            Some(NonZeroU16 { value })
        }
    }

    /// One.
    pub closed spec fn one() -> NonZeroU16 {
        NonZeroU16 { value: 1 }
    }

    pub proof fn lemma_one()
        ensures
            NonZeroU16::one()@ == 1,
    {
    }

    /// The smallest non-zero value.
    pub fn min_value() -> (result: NonZeroU16)
        ensures
            result@ == 1,
            result == NonZeroU16::one(),
    {
        NonZeroU16 { value: 1 }
    }

    /// The contained integer.
    pub fn get(self) -> (value: u16)
        ensures
            value == self@,
            value > 0,
    {
        proof {
            use_type_invariant(&self);
        }
        self.value
    }
}

/// A `u64` that is never zero.
#[derive(Clone, Copy, Debug, PartialEq, Eq, Structural, Hash)]
pub struct NonZeroU64 {
    value: u64,
}

impl View for NonZeroU64 {
    type V = u64;

    closed spec fn view(&self) -> u64 {
        self.value
    }
}

impl NonZeroU64 {
    #[verifier::type_invariant]
    pub open spec fn is_not_zero(self) -> bool {
        self@ != 0
    }

    /// The value as a non-zero integer, or `None` for zero.
    pub fn new(value: u64) -> (result: Option<NonZeroU64>)
        ensures
            result is Some <==> value != 0,
            result matches Some(nonzero) ==> nonzero@ == value,
    {
        if value == 0 {
            None
        } else {
            Some(NonZeroU64 { value })
        }
    }

    /// The smallest non-zero value.
    pub fn min_value() -> (result: NonZeroU64)
        ensures
            result@ == 1,
    {
        NonZeroU64 { value: 1 }
    }

    /// The contained integer.
    pub fn get(self) -> (value: u64)
        ensures
            value == self@,
            value > 0,
    {
        proof {
            use_type_invariant(&self);
        }
        self.value
    }
}

} // verus!
