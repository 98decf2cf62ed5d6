//! Positions and lengths within a buffer, with arithmetic that fails
//! instead of wrapping.

use vstd::prelude::*;
use crate::error::EncodingError;

verus! {

/// A position or a length in a buffer.
pub type Offset = u32;

/// An offset whose arithmetic reports overflow.
#[derive(Clone, Copy, Debug, PartialEq, Eq, Structural)]
pub struct CheckedOffset {
    pub offset: Offset,
}

impl View for CheckedOffset {
    type V = int;

    open spec fn view(&self) -> int {
        self.offset as int
    }
}

/// The sum, difference, product or quotient of two offsets where it is an
/// offset again.
pub open spec fn offset_result(value: int) -> Result<int, EncodingError> {
    if 0 <= value <= u32::MAX {
        Ok(value)
    } else {
        Err(EncodingError::OffsetOverflow)
    }
}

/// The mathematical content of a result that holds an offset.
pub open spec fn offset_view(r: Result<CheckedOffset, EncodingError>) -> Result<
    int,
    EncodingError,
> {
    match r {
        Ok(offset) => Ok(offset@),
        Err(e) => Err(e),
    }
}

impl CheckedOffset {
    /// The checked offset at `offset`.
    pub fn new(offset: Offset) -> (r: CheckedOffset)
        ensures
            r@ == offset,
    {
        CheckedOffset { offset }
    }

    /// The plain position or length.
    pub fn unchecked_offset(self) -> (r: Offset)
        ensures
            r == self@,
    {
        self.offset
    }

    /// The sum, or `OffsetOverflow` where it is no `u32`.
    pub fn checked_add(self, rhs: CheckedOffset) -> (r: Result<CheckedOffset, EncodingError>)
        ensures
            offset_view(r) == offset_result(self@ + rhs@),
    {
        match self.offset.checked_add(rhs.offset) {
            Some(offset) => Ok(CheckedOffset { offset }),
            None => Err(EncodingError::OffsetOverflow),
        }
    }

    /// The difference, or `OffsetOverflow` where it is negative.
    pub fn checked_sub(self, rhs: CheckedOffset) -> (r: Result<CheckedOffset, EncodingError>)
        ensures
            offset_view(r) == offset_result(self@ - rhs@),
    {
        match self.offset.checked_sub(rhs.offset) {
            Some(offset) => Ok(CheckedOffset { offset }),
            None => Err(EncodingError::OffsetOverflow),
        }
    }

    /// The product, or `OffsetOverflow` where it is no `u32`.
    pub fn checked_mul(self, rhs: CheckedOffset) -> (r: Result<CheckedOffset, EncodingError>)
        ensures
            offset_view(r) == offset_result(self@ * rhs@),
    {
        match self.offset.checked_mul(rhs.offset) {
            Some(offset) => Ok(CheckedOffset { offset }),
            None => Err(EncodingError::OffsetOverflow),
        }
    }

    /// The quotient, or `OffsetOverflow` where the divisor is zero.
    pub fn checked_div(self, rhs: CheckedOffset) -> (r: Result<CheckedOffset, EncodingError>)
        ensures
            rhs@ != 0 ==> offset_view(r) == Ok::<int, EncodingError>(self@ / rhs@),
            rhs@ == 0 ==> r == Err::<CheckedOffset, EncodingError>(EncodingError::OffsetOverflow),
    {
        if rhs.offset == 0 {
            Err(EncodingError::OffsetOverflow)
        } else {
            Ok(CheckedOffset { offset: self.offset / rhs.offset })
        }
    }
}

impl From<Offset> for CheckedOffset {
    fn from(offset: Offset) -> (r: CheckedOffset) {
        CheckedOffset { offset }
    }
}

impl vstd::std_specs::convert::FromSpecImpl<Offset> for CheckedOffset {
    open spec fn obeys_from_spec() -> bool {
        true
    }

    open spec fn from_spec(offset: Offset) -> CheckedOffset {
        CheckedOffset { offset }
    }
}

} // verus!
