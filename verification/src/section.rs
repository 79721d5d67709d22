//! The two sections that detection reads: where the code lies, and the bytes
//! of the read-only data.
use vstd::prelude::*;

verus! {

/// Address range of a section: `size` bytes starting at `address`.
#[derive(Clone, Copy, Debug, PartialEq, Eq, Structural)]
pub struct SectionRange {
    pub address: u64,
    pub size: u64,
}

impl SectionRange {
    /// Whether `pointer` lies strictly between the section's first address and
    /// the address one past its last byte.
    pub open spec fn encloses(self, pointer: int) -> bool {
        self.address < pointer < self.address + self.size
    }

    /// Whether `pointer` points strictly inside the section.
    pub fn contains(&self, pointer: u64) -> (inside: bool)
        ensures
            inside == self.encloses(pointer as int),
    {
        self.address < pointer && pointer - self.address < self.size
    }
}

/// Neither the first address of a section nor the address one past its last
/// byte counts as pointing into it.
pub proof fn lemma_bounds_are_outside(range: SectionRange)
    ensures
        !range.encloses(range.address as int),
        !range.encloses(range.address + range.size),
{
}

/// A read-only data section: its bytes and the address of the first of them.
#[derive(Clone, Copy, Debug)]
pub struct ReadOnlyData<'a> {
    pub address: u64,
    pub bytes: &'a [u8],
}

} // verus!
