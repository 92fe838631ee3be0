//! A test range type: a half-open `u64` interval with a kind.

use vstd::prelude::*;

verus! {

/// The kind of a test range.
#[derive(Debug, Clone, Copy, PartialEq, Eq, Structural)]
pub enum RangeKind {
    TypeA,
    TypeB,
    TypeC,
}

impl Default for RangeKind {
    fn default() -> (r: RangeKind)
        ensures
            r == RangeKind::TypeA,
    {
        RangeKind::TypeA
    }
}

/// A half-open range `[start, end)` of a kind.
#[derive(Debug, Clone, Copy, PartialEq, Eq, Structural)]
pub struct TestRange {
    pub start: u64,
    pub end: u64,
    pub kind: RangeKind,
}

impl Default for TestRange {
    fn default() -> (r: TestRange)
        ensures
            r == (TestRange { start: 0, end: 0, kind: RangeKind::TypeA }),
    {
        TestRange { start: 0, end: 0, kind: RangeKind::TypeA }
    }
}

impl TestRange {
    /// The range `[start, end)` of kind `kind`.
    pub fn new(start: u64, end: u64, kind: RangeKind) -> (r: TestRange)
        ensures
            r == (TestRange { start, end, kind }),
    {
        TestRange { start, end, kind }
    }

    /// The interval of the range.
    pub fn range(&self) -> (r: core::ops::Range<u64>)
        ensures
            r.start == self.start,
            r.end == self.end,
    {
        self.start..self.end
    }

    /// The kind of the range.
    pub fn kind(&self) -> (r: RangeKind)
        ensures
            r == self.kind,
    {
        self.kind
    }

    /// Any other range may overwrite this one.
    pub fn overwritable(&self, _other: u64) -> (r: bool)
        ensures
            r,
    {
        true
    }

    /// A range of the same kind over `range`.
    pub fn clone_with_range(&self, range: core::ops::Range<u64>) -> (r: TestRange)
        ensures
            r == (TestRange { start: range.start, end: range.end, kind: self.kind }),
    {
        TestRange { start: range.start, end: range.end, kind: self.kind }
    }
}

} // verus!
