//! The integer types that serve as coordinates, seen through the integer each
//! value stands for.

use vstd::prelude::*;

verus! {

/// An integer type that can serve as a coordinate of a lattice point.
///
/// Contracts speak of a coordinate through `value`, the mathematical integer it
/// stands for, so that one statement covers every width.
pub trait Coordinate: Copy + Sized {
    /// The integer that this coordinate stands for.
    spec fn value(self) -> int;

    /// The smallest integer that the type can hold.
    spec fn lowest() -> int;

    /// The largest integer that the type can hold.
    spec fn highest() -> int;

    /// Every coordinate lies between `lowest` and `highest`.
    proof fn lemma_value_in_range(self)
        ensures
            Self::lowest() <= self.value() <= Self::highest(),
    ;

    /// Two coordinates that stand for the same integer are the same coordinate.
    proof fn lemma_value_determines(self, other: Self)
        requires
            self.value() == other.value(),
        ensures
            self == other,
    ;

    /// Whether `self` lies strictly before `other`.
    fn is_below(self, other: Self) -> (below: bool)
        ensures
            below == (self.value() < other.value()),
    ;

    /// Whether `self` and `other` stand for the same integer.
    fn is_same(self, other: Self) -> (same: bool)
        ensures
            same == (self.value() == other.value()),
    ;

    /// The coordinate `length` steps after `self`.
    fn offset_by(self, length: Self) -> (moved: Self)
        requires
            Self::lowest() <= self.value() + length.value() <= Self::highest(),
        ensures
            moved.value() == self.value() + length.value(),
    ;

    /// The coordinate `length` steps after `self`, or `None` where the type
    /// cannot hold it.
    fn checked_offset_by(self, length: Self) -> (moved: Option<Self>)
        ensures
            match moved {
                Some(m) => m.value() == self.value() + length.value(),
                None => !(Self::lowest() <= self.value() + length.value() <= Self::highest()),
            },
    ;

    /// The coordinate one step after `self`.
    fn successor(self) -> (after: Self)
        requires
            self.value() < Self::highest(),
        ensures
            after.value() == self.value() + 1,
    ;

    /// The coordinate one step before `self`.
    fn predecessor(self) -> (before: Self)
        requires
            self.value() > Self::lowest(),
        ensures
            before.value() == self.value() - 1,
    ;
}

impl Coordinate for u8 {
    open spec fn value(self) -> int {
        self as int
    }

    open spec fn lowest() -> int {
        u8::MIN as int
    }

    open spec fn highest() -> int {
        u8::MAX as int
    }

    proof fn lemma_value_in_range(self) {
    }

    proof fn lemma_value_determines(self, other: Self) {
    }

    fn is_below(self, other: Self) -> (below: bool) {
        self < other
    }

    fn is_same(self, other: Self) -> (same: bool) {
        self == other
    }

    fn offset_by(self, length: Self) -> (moved: Self) {
        self + length
    }

    fn checked_offset_by(self, length: Self) -> (moved: Option<Self>) {
        self.checked_add(length)
    }

    fn successor(self) -> (after: Self) {
        self + 1
    }

    fn predecessor(self) -> (before: Self) {
        self - 1
    }
}

impl Coordinate for u16 {
    open spec fn value(self) -> int {
        self as int
    }

    open spec fn lowest() -> int {
        u16::MIN as int
    }

    open spec fn highest() -> int {
        u16::MAX as int
    }

    proof fn lemma_value_in_range(self) {
    }

    proof fn lemma_value_determines(self, other: Self) {
    }

    fn is_below(self, other: Self) -> (below: bool) {
        self < other
    }

    fn is_same(self, other: Self) -> (same: bool) {
        self == other
    }

    fn offset_by(self, length: Self) -> (moved: Self) {
        self + length
    }

    fn checked_offset_by(self, length: Self) -> (moved: Option<Self>) {
        self.checked_add(length)
    }

    fn successor(self) -> (after: Self) {
        self + 1
    }

    fn predecessor(self) -> (before: Self) {
        self - 1
    }
}

impl Coordinate for u32 {
    open spec fn value(self) -> int {
        self as int
    }

    open spec fn lowest() -> int {
        u32::MIN as int
    }

    open spec fn highest() -> int {
        u32::MAX as int
    }

    proof fn lemma_value_in_range(self) {
    }

    proof fn lemma_value_determines(self, other: Self) {
    }

    fn is_below(self, other: Self) -> (below: bool) {
        self < other
    }

    fn is_same(self, other: Self) -> (same: bool) {
        self == other
    }

    fn offset_by(self, length: Self) -> (moved: Self) {
        self + length
    }

    fn checked_offset_by(self, length: Self) -> (moved: Option<Self>) {
        self.checked_add(length)
    }

    fn successor(self) -> (after: Self) {
        self + 1
    }

    fn predecessor(self) -> (before: Self) {
        self - 1
    }
}

impl Coordinate for u64 {
    open spec fn value(self) -> int {
        self as int
    }

    open spec fn lowest() -> int {
        u64::MIN as int
    }

    open spec fn highest() -> int {
        u64::MAX as int
    }

    proof fn lemma_value_in_range(self) {
    }

    proof fn lemma_value_determines(self, other: Self) {
    }

    fn is_below(self, other: Self) -> (below: bool) {
        self < other
    }

    fn is_same(self, other: Self) -> (same: bool) {
        self == other
    }

    fn offset_by(self, length: Self) -> (moved: Self) {
        self + length
    }

    fn checked_offset_by(self, length: Self) -> (moved: Option<Self>) {
        self.checked_add(length)
    }

    fn successor(self) -> (after: Self) {
        self + 1
    }

    fn predecessor(self) -> (before: Self) {
        self - 1
    }
}

impl Coordinate for usize {
    open spec fn value(self) -> int {
        self as int
    }

    open spec fn lowest() -> int {
        usize::MIN as int
    }

    open spec fn highest() -> int {
        usize::MAX as int
    }

    proof fn lemma_value_in_range(self) {
    }

    proof fn lemma_value_determines(self, other: Self) {
    }

    fn is_below(self, other: Self) -> (below: bool) {
        self < other
    }

    fn is_same(self, other: Self) -> (same: bool) {
        self == other
    }

    fn offset_by(self, length: Self) -> (moved: Self) {
        self + length
    }

    fn checked_offset_by(self, length: Self) -> (moved: Option<Self>) {
        self.checked_add(length)
    }

    fn successor(self) -> (after: Self) {
        self + 1
    }

    fn predecessor(self) -> (before: Self) {
        self - 1
    }
}

impl Coordinate for i8 {
    open spec fn value(self) -> int {
        self as int
    }

    open spec fn lowest() -> int {
        i8::MIN as int
    }

    open spec fn highest() -> int {
        i8::MAX as int
    }

    proof fn lemma_value_in_range(self) {
    }

    proof fn lemma_value_determines(self, other: Self) {
    }

    fn is_below(self, other: Self) -> (below: bool) {
        self < other
    }

    fn is_same(self, other: Self) -> (same: bool) {
        self == other
    }

    fn offset_by(self, length: Self) -> (moved: Self) {
        self + length
    }

    fn checked_offset_by(self, length: Self) -> (moved: Option<Self>) {
        self.checked_add(length)
    }

    fn successor(self) -> (after: Self) {
        self + 1
    }

    fn predecessor(self) -> (before: Self) {
        self - 1
    }
}

impl Coordinate for i16 {
    open spec fn value(self) -> int {
        self as int
    }

    open spec fn lowest() -> int {
        i16::MIN as int
    }

    open spec fn highest() -> int {
        i16::MAX as int
    }

    proof fn lemma_value_in_range(self) {
    }

    proof fn lemma_value_determines(self, other: Self) {
    }

    fn is_below(self, other: Self) -> (below: bool) {
        self < other
    }

    fn is_same(self, other: Self) -> (same: bool) {
        self == other
    }

    fn offset_by(self, length: Self) -> (moved: Self) {
        self + length
    }

    fn checked_offset_by(self, length: Self) -> (moved: Option<Self>) {
        self.checked_add(length)
    }

    fn successor(self) -> (after: Self) {
        self + 1
    }

    fn predecessor(self) -> (before: Self) {
        self - 1
    }
}

impl Coordinate for i32 {
    open spec fn value(self) -> int {
        self as int
    }

    open spec fn lowest() -> int {
        i32::MIN as int
    }

    open spec fn highest() -> int {
        i32::MAX as int
    }

    proof fn lemma_value_in_range(self) {
    }

    proof fn lemma_value_determines(self, other: Self) {
    }

    fn is_below(self, other: Self) -> (below: bool) {
        self < other
    }

    fn is_same(self, other: Self) -> (same: bool) {
        self == other
    }

    fn offset_by(self, length: Self) -> (moved: Self) {
        self + length
    }

    fn checked_offset_by(self, length: Self) -> (moved: Option<Self>) {
        self.checked_add(length)
    }

    fn successor(self) -> (after: Self) {
        self + 1
    }

    fn predecessor(self) -> (before: Self) {
        self - 1
    }
}

impl Coordinate for i64 {
    open spec fn value(self) -> int {
        self as int
    }

    open spec fn lowest() -> int {
        i64::MIN as int
    }

    open spec fn highest() -> int {
        i64::MAX as int
    }

    proof fn lemma_value_in_range(self) {
    }

    proof fn lemma_value_determines(self, other: Self) {
    }

    fn is_below(self, other: Self) -> (below: bool) {
        self < other
    }

    fn is_same(self, other: Self) -> (same: bool) {
        self == other
    }

    fn offset_by(self, length: Self) -> (moved: Self) {
        self + length
    }

    fn checked_offset_by(self, length: Self) -> (moved: Option<Self>) {
        self.checked_add(length)
    }

    fn successor(self) -> (after: Self) {
        self + 1
    }

    fn predecessor(self) -> (before: Self) {
        self - 1
    }
}

impl Coordinate for isize {
    open spec fn value(self) -> int {
        self as int
    }

    open spec fn lowest() -> int {
        isize::MIN as int
    }

    open spec fn highest() -> int {
        isize::MAX as int
    }

    proof fn lemma_value_in_range(self) {
    }

    proof fn lemma_value_determines(self, other: Self) {
    }

    fn is_below(self, other: Self) -> (below: bool) {
        self < other
    }

    fn is_same(self, other: Self) -> (same: bool) {
        self == other
    }

    fn offset_by(self, length: Self) -> (moved: Self) {
        self + length
    }

    fn checked_offset_by(self, length: Self) -> (moved: Option<Self>) {
        self.checked_add(length)
    }

    fn successor(self) -> (after: Self) {
        self + 1
    }

    fn predecessor(self) -> (before: Self) {
        self - 1
    }
}

} // verus!
