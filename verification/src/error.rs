use vstd::prelude::*;

verus! {

/// Which bone-reference field of a record an `InvalidReference` points at.
#[derive(Debug, Clone, Copy, PartialEq, Eq, Structural)]
pub enum RefField {
    Parent,
    PoleTarget,
    Mirror,
}

/// Why a decode failed.
///
/// Every failure aborts the whole decode: a single misaligned field would
/// desynchronize every later read, so nothing is skipped or defaulted.
#[derive(Debug, Clone, Copy, PartialEq, Eq, Structural)]
pub enum DecodeError {
    /// Fewer bytes remain than the read starting at `offset` requires.
    /// `short` is the number of bytes missing; for a name read it is 1,
    /// since at least the terminator is missing.
    Truncated { offset: usize, short: usize },
    /// A parent, pole-target or mirror index of bone `bone` in skeleton
    /// `skeleton` is out of range for that skeleton's bone count.
    InvalidReference { skeleton: usize, bone: usize, field: RefField },
}

impl DecodeError {
    /// True of every truncated-input error.
    pub open spec fn is_truncated(self) -> bool {
        matches!(self, DecodeError::Truncated { .. })
    }
}

} // verus!
