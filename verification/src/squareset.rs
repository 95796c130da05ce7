//! A bitset over the 64 crossing points of the 8x8 wall grid, one bit
//! per `Square8x8` index, backed by a single 64-bit word.

use vstd::prelude::*;
use crate::types::Square8x8;

verus! {

/// Whether bit `i` of `x` is set.
pub open spec fn bit64(x: u64, i: u64) -> bool
    recommends
        i < 64,
{
    (x >> i) & 1 == 1
}

/// How many of the low `n` bits of `x` are set.
pub open spec fn count_bits64(x: u64, n: int) -> int
    decreases n,
{
    if n <= 0 {
        0
    } else {
        count_bits64(x, n - 1) + if bit64(x, (n - 1) as u64) {
            1int
        } else {
            0int
        }
    }
}

pub proof fn lemma_count_bits64_bounds(x: u64, n: int)
    requires
        0 <= n,
    ensures
        0 <= count_bits64(x, n) <= n,
    decreases n,
{
    if n > 0 {
        lemma_count_bits64_bounds(x, n - 1);
    }
}

pub(crate) proof fn lemma_bit64_or(x: u64, y: u64, i: u64)
    by (bit_vector)
    requires
        i < 64,
    ensures
        bit64(x | y, i) == (bit64(x, i) || bit64(y, i)),
{
}

pub(crate) proof fn lemma_bit64_and(x: u64, y: u64, i: u64)
    by (bit_vector)
    requires
        i < 64,
    ensures
        bit64(x & y, i) == (bit64(x, i) && bit64(y, i)),
{
}

pub(crate) proof fn lemma_bit64_andnot(x: u64, y: u64, i: u64)
    by (bit_vector)
    requires
        i < 64,
    ensures
        bit64(x & !y, i) == (bit64(x, i) && !bit64(y, i)),
{
}

pub(crate) proof fn lemma_bit64_xor(x: u64, y: u64, i: u64)
    by (bit_vector)
    requires
        i < 64,
    ensures
        bit64(x ^ y, i) == (bit64(x, i) != bit64(y, i)),
{
}

pub(crate) proof fn lemma_bit64_not(x: u64, i: u64)
    by (bit_vector)
    requires
        i < 64,
    ensures
        bit64(!x, i) == !bit64(x, i),
{
}

pub(crate) proof fn lemma_bit64_single(s: u64, i: u64)
    by (bit_vector)
    requires
        s < 64,
        i < 64,
    ensures
        bit64(1u64 << s, i) == (i == s),
{
}

pub(crate) proof fn lemma_bit64_shl(x: u64, k: u64, i: u64)
    by (bit_vector)
    requires
        k < 64,
        i < 64,
    ensures
        i >= k ==> bit64(x << k, i) == bit64(x, (i - k) as u64),
        i < k ==> !bit64(x << k, i),
{
}

pub(crate) proof fn lemma_bit64_shr(x: u64, k: u64, i: u64)
    by (bit_vector)
    requires
        k < 64,
        i < 64,
    ensures
        i + k < 64 ==> bit64(x >> k, i) == bit64(x, (i + k) as u64),
        i + k >= 64 ==> !bit64(x >> k, i),
{
}

pub(crate) proof fn lemma_bit64_file_a(i: u64)
    by (bit_vector)
    requires
        i < 64,
    ensures
        bit64(0x0101_0101_0101_0101u64, i) == (i % 8 == 0),
{
}

pub(crate) proof fn lemma_bit64_file_h(i: u64)
    by (bit_vector)
    requires
        i < 64,
    ensures
        bit64(0x8080_8080_8080_8080u64, i) == (i % 8 == 7),
{
}

/// The zero word has no set bit.
pub(crate) proof fn lemma_bit64_zero(i: u64)
    by (bit_vector)
    requires
        i < 64,
    ensures
        !bit64(0u64, i),
{
}

/// One step of a scan for the lowest set bit: if the low `j` bits of
/// `x` are clear and bit `j` is clear too, the low `j + 1` bits are
/// clear; past the last bit the whole word is zero.
pub(crate) proof fn lemma_bit64_scan_step(x: u64, j: u64)
    by (bit_vector)
    requires
        j < 64,
        x & (((1u64 << j) - 1) as u64) == 0,
        !bit64(x, j),
    ensures
        j < 63 ==> x & (((1u64 << ((j + 1) as u64)) - 1) as u64) == 0,
        j == 63 ==> x == 0,
{
}

/// If the low `j` bits of `x` are clear then every bit below `j` reads
/// as zero.
pub(crate) proof fn lemma_bit64_scan_low(x: u64, j: u64, k: u64)
    by (bit_vector)
    requires
        j < 64,
        k < j,
        x & (((1u64 << j) - 1) as u64) == 0,
    ensures
        !bit64(x, k),
{
}

/// A set of crossing points of the 8x8 wall grid. Bit `i` of the
/// backing word stands for the square with index `i`.
#[derive(Copy, Clone, Debug, PartialEq, Eq, Structural, Hash)]
pub struct SquareSet {
    pub bits: u64,
}

impl SquareSet {
    /// Whether the square with index `i` is in the set.
    pub open spec fn spec_has(self, i: int) -> bool {
        0 <= i < 64 && bit64(self.bits, i as u64)
    }

    /// Whether the given square is in the set.
    pub open spec fn spec_contains(self, square: Square8x8) -> bool {
        self.spec_has(square.idx as int)
    }

    /// The number of squares in the set.
    pub open spec fn spec_count(self) -> int {
        count_bits64(self.bits, 64)
    }

    /// The set with the square of index `i` added, as a value.
    pub open spec fn spec_insert(self, i: int) -> SquareSet
        recommends
            0 <= i < 64,
    {
        SquareSet { bits: self.bits | (1u64 << (i as u64)) }
    }

    /// Creates a set from its backing word.
    pub fn from_inner(inner: u64) -> (r: Self)
        ensures
            r.bits == inner,
    {
        SquareSet { bits: inner }
    }

    /// Returns the backing word of the set.
    pub fn inner(self) -> (r: u64)
        ensures
            r == self.bits,
    {
        self.bits
    }

    /// Counts the squares in the set.
    pub fn count(self) -> (r: u32)
        ensures
            r == self.spec_count(),
    {
        let mut total: u32 = 0;
        let mut i: u8 = 0;
        while i < 64
            invariant
                i <= 64,
                total == count_bits64(self.bits, i as int),
            decreases 64 - i,
        {
            proof {
                lemma_count_bits64_bounds(self.bits, i as int);
            }
            if (self.bits >> (i as u64)) & 1 == 1 {
                total = total + 1;
            }
            i = i + 1;
        }
        total
    }

    /// Whether the set has no squares at all.
    pub fn is_empty(self) -> (r: bool)
        ensures
            r == (self.bits == 0),
            r ==> forall|i: int| !self.spec_has(i),
    {
        proof {
            if self.bits == 0 {
                assert forall|i: int| !self.spec_has(i) by {
                    if 0 <= i < 64 {
                        lemma_bit64_zero(i as u64);
                    }
                }
            }
        }
        self.bits == 0
    }

    /// Whether every bit of the backing word is set.
    pub fn is_full(self) -> (r: bool)
        ensures
            r == (self.bits == 0xFFFF_FFFF_FFFF_FFFFu64),
    {
        self.bits == 0xFFFF_FFFF_FFFF_FFFF
    }

    /// Whether the set has at least one square.
    pub fn non_empty(self) -> (r: bool)
        ensures
            r == (self.bits != 0),
    {
        self.bits != 0
    }

    /// The squares in both `self` and `other`.
    pub fn intersection(self, other: Self) -> (r: Self)
        ensures
            forall|i: int| #![auto] r.spec_has(i) == (self.spec_has(i) && other.spec_has(i)),
    {
        proof {
            assert forall|i: u64| i < 64 implies bit64(self.bits & other.bits, i) == (
            bit64(self.bits, i) && bit64(other.bits, i)) by {
                lemma_bit64_and(self.bits, other.bits, i);
            }
        }
        SquareSet { bits: self.bits & other.bits }
    }

    /// Whether `other` is a subset of `self`.
    pub fn contains(self, other: Self) -> (r: bool)
        ensures
            r == (forall|i: int| #![auto] other.spec_has(i) ==> self.spec_has(i)),
    {
        proof {
            assert forall|i: u64| i < 64 implies bit64(self.bits & other.bits, i) == (
            bit64(self.bits, i) && bit64(other.bits, i)) by {
                lemma_bit64_and(self.bits, other.bits, i);
            }
            if self.bits & other.bits == other.bits {
                assert forall|i: int| other.spec_has(i) implies self.spec_has(i) by {
                    assert(bit64(self.bits & other.bits, i as u64) == bit64(
                        other.bits,
                        i as u64,
                    ));
                }
            } else {
                lemma_bit64_subset_word(self.bits, other.bits);
                let w = choose|i: u64|
                    i < 64 && bit64(other.bits, i) && !bit64(self.bits, i);
                assert(other.spec_has(w as int) && !self.spec_has(w as int));
            }
        }
        (self.bits & other.bits) == other.bits
    }

    /// Whether the given square is in the set.
    pub fn contains_square(self, square: Square8x8) -> (r: bool)
        requires
            square.wf(),
        ensures
            r == self.spec_contains(square),
    {
        (self.bits >> (square.idx as u64)) & 1 == 1
    }

    /// The squares in `self` or `other` or both.
    pub fn union(self, other: Self) -> (r: Self)
        ensures
            forall|i: int| #![auto] r.spec_has(i) == (self.spec_has(i) || other.spec_has(i)),
    {
        proof {
            assert forall|i: u64| i < 64 implies bit64(self.bits | other.bits, i) == (
            bit64(self.bits, i) || bit64(other.bits, i)) by {
                lemma_bit64_or(self.bits, other.bits, i);
            }
        }
        SquareSet { bits: self.bits | other.bits }
    }

    /// The set with the given square added.
    pub fn add_square(self, square: Square8x8) -> (r: Self)
        requires
            square.wf(),
        ensures
            r == self.spec_insert(square.idx as int),
            forall|i: int| #![auto]
                r.spec_has(i) == (self.spec_has(i) || i == square.idx as int),
    {
        proof {
            assert forall|i: u64| i < 64 implies bit64(
                self.bits | (1u64 << (square.idx as u64)),
                i,
            ) == (bit64(self.bits, i) || i == square.idx as int) by {
                lemma_bit64_or(self.bits, 1u64 << (square.idx as u64), i);
                lemma_bit64_single(square.idx as u64, i);
            }
        }
        SquareSet { bits: self.bits | (1u64 << (square.idx as u64)) }
    }

    /// The squares of `self` that are not in `other`.
    pub fn remove(self, other: Self) -> (r: Self)
        ensures
            forall|i: int| #![auto] r.spec_has(i) == (self.spec_has(i) && !other.spec_has(i)),
    {
        proof {
            assert forall|i: u64| i < 64 implies bit64(self.bits & !other.bits, i) == (
            bit64(self.bits, i) && !bit64(other.bits, i)) by {
                lemma_bit64_andnot(self.bits, other.bits, i);
            }
        }
        SquareSet { bits: self.bits & !other.bits }
    }

    /// The set with the given square removed.
    pub fn remove_square(self, square: Square8x8) -> (r: Self)
        requires
            square.wf(),
        ensures
            forall|i: int| #![auto]
                r.spec_has(i) == (self.spec_has(i) && i != square.idx as int),
    {
        proof {
            assert forall|i: u64| i < 64 implies bit64(
                self.bits & !(1u64 << (square.idx as u64)),
                i,
            ) == (bit64(self.bits, i) && i != square.idx as int) by {
                lemma_bit64_andnot(self.bits, 1u64 << (square.idx as u64), i);
                lemma_bit64_single(square.idx as u64, i);
            }
        }
        SquareSet { bits: self.bits & !(1u64 << (square.idx as u64)) }
    }

    /// The symmetric difference of `self` and `other`.
    pub fn toggle(self, other: Self) -> (r: Self)
        ensures
            forall|i: int| #![auto] r.spec_has(i) == (self.spec_has(i) != other.spec_has(i)),
    {
        proof {
            assert forall|i: u64| i < 64 implies bit64(self.bits ^ other.bits, i) == (
            bit64(self.bits, i) != bit64(other.bits, i)) by {
                lemma_bit64_xor(self.bits, other.bits, i);
            }
        }
        SquareSet { bits: self.bits ^ other.bits }
    }

    /// The set with the membership of the given square flipped.
    pub fn toggle_square(self, square: Square8x8) -> (r: Self)
        requires
            square.wf(),
        ensures
            forall|i: int| #![auto]
                r.spec_has(i) == if i == square.idx as int {
                    !self.spec_has(i)
                } else {
                    self.spec_has(i)
                },
    {
        proof {
            assert forall|i: u64| i < 64 implies bit64(
                self.bits ^ (1u64 << (square.idx as u64)),
                i,
            ) == (bit64(self.bits, i) != (i == square.idx as int)) by {
                lemma_bit64_xor(self.bits, 1u64 << (square.idx as u64), i);
                lemma_bit64_single(square.idx as u64, i);
            }
        }
        SquareSet { bits: self.bits ^ (1u64 << (square.idx as u64)) }
    }

    /// The squares that are not in the set.
    pub fn complement(self) -> (r: Self)
        ensures
            forall|i: int| #![auto] r.spec_has(i) == (0 <= i < 64 && !self.spec_has(i)),
    {
        proof {
            assert forall|i: u64| i < 64 implies bit64(!self.bits, i) == !bit64(
                self.bits,
                i,
            ) by {
                lemma_bit64_not(self.bits, i);
            }
        }
        SquareSet { bits: !self.bits }
    }

    /// The lowest-index square of a non-empty set.
    pub fn first(self) -> (r: Square8x8)
        requires
            self.bits != 0,
        ensures
            r.wf(),
            self.spec_contains(r),
            forall|i: int| 0 <= i < r.idx as int ==> !self.spec_has(i),
    {
        let mut j: u8 = 0;
        proof {
            lemma_bit64_mask_zero(self.bits);
        }
        loop
            invariant
                j < 64,
                self.bits != 0,
                self.bits & (((1u64 << (j as u64)) - 1) as u64) == 0,
            decreases 64 - j,
        {
            if (self.bits >> (j as u64)) & 1 == 1 {
                proof {
                    assert forall|i: int| 0 <= i < j as int implies !self.spec_has(i) by {
                        lemma_bit64_scan_low(self.bits, j as u64, i as u64);
                    }
                }
                return Square8x8 { idx: j };
            }
            proof {
                lemma_bit64_scan_step(self.bits, j as u64);
            }
            if j == 63 {
                // a non-empty word has a set bit, so the scan cannot
                // run past the last one
                proof {
                    assert(false);
                }
            }
            j = j + 1;
        }
    }

    /// The set holding exactly the given square.
    pub fn from_square(square: Square8x8) -> (r: Self)
        requires
            square.wf(),
        ensures
            forall|i: int| #![auto] r.spec_has(i) == (i == square.idx as int),
    {
        proof {
            assert forall|i: u64| i < 64 implies #[trigger] bit64(1u64 << (square.idx as u64), i)
                == (i == square.idx as int) by {
                lemma_bit64_single(square.idx as u64, i);
            }
        }
        SquareSet { bits: 1u64 << (square.idx as u64) }
    }

    /// Every square moved one step east; squares of the east file drop
    /// off.
    pub fn east_one(self) -> (r: Self)
        ensures
            forall|i: int| #![auto]
                r.spec_has(i) == (0 <= i < 64 && i % 8 > 0 && self.spec_has(i - 1)),
    {
        let out = SquareSet { bits: (self.bits << 1u64) & !0x0101_0101_0101_0101u64 };
        proof {
            assert forall|i: u64| i < 64 implies bit64(out.bits, i) == (i % 8 > 0
                && self.spec_has(i - 1)) by {
                lemma_bit64_andnot(self.bits << 1u64, 0x0101_0101_0101_0101u64, i);
                lemma_bit64_file_a(i);
                lemma_bit64_shl(self.bits, 1u64, i);
            }
        }
        out
    }

    /// Every square moved one step west; squares of the west file drop
    /// off.
    pub fn west_one(self) -> (r: Self)
        ensures
            forall|i: int| #![auto]
                r.spec_has(i) == (0 <= i < 64 && i % 8 < 7 && self.spec_has(i + 1)),
    {
        let out = SquareSet { bits: (self.bits >> 1u64) & !0x8080_8080_8080_8080u64 };
        proof {
            assert forall|i: u64| i < 64 implies bit64(out.bits, i) == (i % 8 < 7
                && self.spec_has(i + 1)) by {
                lemma_bit64_andnot(self.bits >> 1u64, 0x8080_8080_8080_8080u64, i);
                lemma_bit64_file_h(i);
                lemma_bit64_shr(self.bits, 1u64, i);
                if i % 8 < 7 {
                    assert(i + 1 < 64);
                }
            }
        }
        out
    }

    /// Every square moved one step north; squares of the north rank
    /// drop off.
    pub fn north_one(self) -> (r: Self)
        ensures
            forall|i: int| #![auto] r.spec_has(i) == (8 <= i < 64 && self.spec_has(i - 8)),
    {
        let out = SquareSet { bits: self.bits << 8u64 };
        proof {
            assert forall|i: u64| i < 64 implies bit64(out.bits, i) == (8 <= i
                && self.spec_has(i - 8)) by {
                lemma_bit64_shl(self.bits, 8u64, i);
            }
        }
        out
    }

    /// Every square moved one step south; squares of the south rank
    /// drop off.
    pub fn south_one(self) -> (r: Self)
        ensures
            forall|i: int| #![auto] r.spec_has(i) == (0 <= i < 56 && self.spec_has(i + 8)),
    {
        let out = SquareSet { bits: self.bits >> 8u64 };
        proof {
            assert forall|i: u64| i < 64 implies bit64(out.bits, i) == (i < 56
                && self.spec_has(i + 8)) by {
                lemma_bit64_shr(self.bits, 8u64, i);
            }
        }
        out
    }

    /// Every square moved one step north-east; squares that would wrap
    /// around the east file drop off.
    pub fn north_east_one(self) -> (r: Self)
        ensures
            forall|i: int| #![auto]
                r.spec_has(i) == (9 <= i < 64 && i % 8 > 0 && self.spec_has(i - 9)),
    {
        let out = SquareSet { bits: (self.bits << 9u64) & !0x0101_0101_0101_0101u64 };
        proof {
            assert forall|i: u64| i < 64 implies bit64(out.bits, i) == (9 <= i && i % 8
                > 0 && self.spec_has(i - 9)) by {
                lemma_bit64_andnot(self.bits << 9u64, 0x0101_0101_0101_0101u64, i);
                lemma_bit64_file_a(i);
                lemma_bit64_shl(self.bits, 9u64, i);
            }
        }
        out
    }

    /// Every square moved one step north-west; squares that would wrap
    /// around the west file drop off.
    pub fn north_west_one(self) -> (r: Self)
        ensures
            forall|i: int| #![auto]
                r.spec_has(i) == (7 <= i < 64 && i % 8 < 7 && self.spec_has(i - 7)),
    {
        let out = SquareSet { bits: (self.bits << 7u64) & !0x8080_8080_8080_8080u64 };
        proof {
            assert forall|i: u64| i < 64 implies bit64(out.bits, i) == (7 <= i && i % 8
                < 7 && self.spec_has(i - 7)) by {
                lemma_bit64_andnot(self.bits << 7u64, 0x8080_8080_8080_8080u64, i);
                lemma_bit64_file_h(i);
                lemma_bit64_shl(self.bits, 7u64, i);
            }
        }
        out
    }

    /// Every square moved one step south-east; squares that would wrap
    /// around the east file drop off.
    pub fn south_east_one(self) -> (r: Self)
        ensures
            forall|i: int| #![auto]
                r.spec_has(i) == (0 <= i < 57 && i % 8 > 0 && self.spec_has(i + 7)),
    {
        let out = SquareSet { bits: (self.bits >> 7u64) & !0x0101_0101_0101_0101u64 };
        proof {
            assert forall|i: u64| i < 64 implies bit64(out.bits, i) == (i < 57 && i % 8
                > 0 && self.spec_has(i + 7)) by {
                lemma_bit64_andnot(self.bits >> 7u64, 0x0101_0101_0101_0101u64, i);
                lemma_bit64_file_a(i);
                lemma_bit64_shr(self.bits, 7u64, i);
            }
        }
        out
    }

    /// Every square moved one step south-west; squares that would wrap
    /// around the west file drop off.
    pub fn south_west_one(self) -> (r: Self)
        ensures
            forall|i: int| #![auto]
                r.spec_has(i) == (0 <= i < 55 && i % 8 < 7 && self.spec_has(i + 9)),
    {
        let out = SquareSet { bits: (self.bits >> 9u64) & !0x8080_8080_8080_8080u64 };
        proof {
            assert forall|i: u64| i < 64 implies bit64(out.bits, i) == (i < 55 && i % 8
                < 7 && self.spec_has(i + 9)) by {
                lemma_bit64_andnot(self.bits >> 9u64, 0x8080_8080_8080_8080u64, i);
                lemma_bit64_file_h(i);
                lemma_bit64_shr(self.bits, 9u64, i);
            }
        }
        out
    }

    /// An iterator over the squares of the set, lowest index first.
    pub fn iter(self) -> (r: SquareSetIter)
        ensures
            r.set == self,
    {
        SquareSetIter { set: self }
    }
}

/// Inserting a square into a set reads back pointwise: the new set
/// holds exactly the old squares and the inserted index.
pub proof fn lemma_insert_pointwise(s: SquareSet, i: int)
    requires
        0 <= i < 64,
    ensures
        forall|j: int| #![auto] s.spec_insert(i).spec_has(j) == (s.spec_has(j) || j == i),
{
    assert forall|j: u64| j < 64 implies bit64(s.spec_insert(i).bits, j) == (bit64(s.bits, j) || j
        == i as u64) by {
        lemma_bit64_or(s.bits, 1u64 << (i as u64), j);
        lemma_bit64_single(i as u64, j);
    }
}

/// The empty set has no members.
pub proof fn lemma_empty_set_has_none()
    ensures
        forall|j: int| !(SquareSet { bits: 0u64 }).spec_has(j),
{
    assert forall|j: int| !(SquareSet { bits: 0u64 }).spec_has(j) by {
        if 0 <= j < 64 {
            lemma_bit64_zero(j as u64);
        }
    }
}

/// If `x & y != y` then some bit of `y` is missing from `x`.
pub(crate) proof fn lemma_bit64_subset_word(x: u64, y: u64)
    requires
        x & y != y,
    ensures
        exists|i: u64| i < 64 && bit64(y, i) && !bit64(x, i),
{
    lemma_bit64_subset_word_find(x, y, 64);
}

/// If the bits of `y` below `n` are all covered by `x`, the two words
/// agree on `x & y` below `n`.
proof fn lemma_bit64_subset_word_find(x: u64, y: u64, n: int) -> (i: u64)
    requires
        0 <= n <= 64,
        x & y != y,
        forall|k: u64| n <= k < 64 ==> !(bit64(y, k) && !bit64(x, k)),
    ensures
        i < 64 && bit64(y, i) && !bit64(x, i),
    decreases n,
{
    if n <= 0 {
        assert forall|k: u64| k < 64 implies bit64(x & y, k) == bit64(y, k) by {
            lemma_bit64_and(x, y, k);
        }
        lemma_bit64_words_agree(x & y, y);
        0
    } else {
        if bit64(y, (n - 1) as u64) && !bit64(x, (n - 1) as u64) {
            (n - 1) as u64
        } else {
            lemma_bit64_subset_word_find(x, y, n - 1)
        }
    }
}

pub(crate) proof fn lemma_bit64_xor_zero(x: u64, y: u64)
    by (bit_vector)
    requires
        x ^ y == 0,
    ensures
        x == y,
{
}

/// The empty low-bit mask: below bit zero no bit of any word is set.
pub(crate) proof fn lemma_bit64_mask_zero(x: u64)
    by (bit_vector)
    ensures
        x & (((1u64 << 0u64) - 1) as u64) == 0,
{
}

/// Two words whose 64 bits agree are equal.
pub(crate) proof fn lemma_bit64_words_agree(x: u64, y: u64)
    requires
        forall|k: u64| k < 64 ==> bit64(x, k) == bit64(y, k),
    ensures
        x == y,
{
    let z = x ^ y;
    assert forall|k: u64| k < 64 implies !bit64(z, k) by {
        lemma_bit64_xor(x, y, k);
    }
    if z != 0 {
        lemma_bit64_nonzero_word_has_bit(z);
        assert(false);
    }
    lemma_bit64_xor_zero(x, y);
}

/// A non-zero word has a set bit.
proof fn lemma_bit64_nonzero_word_has_bit(z: u64)
    requires
        z != 0,
    ensures
        exists|k: u64| k < 64 && bit64(z, k),
{
    lemma_bit64_mask_zero(z);
    let w = find_set_bit(z, 0);
    assert(w < 64 && bit64(z, w));
}

/// Finds a set bit of a non-zero word by scanning upward.
proof fn find_set_bit(z: u64, j: u64) -> (r: u64)
    requires
        j < 64,
        z != 0,
        z & (((1u64 << j) - 1) as u64) == 0,
    ensures
        r < 64 && bit64(z, r),
    decreases 64 - j,
{
    if bit64(z, j) {
        j
    } else {
        lemma_bit64_scan_step(z, j);
        if j == 63 {
            assert(false);
            0
        } else {
            find_set_bit(z, (j + 1) as u64)
        }
    }
}

/// The two characters of one displayed cell.
pub open spec fn spec_cell64(occupied: bool) -> Seq<char> {
    if occupied {
        seq!['X', ' ']
    } else {
        seq!['.', ' ']
    }
}

/// One displayed row of the grid: the first `nfiles` cells of `rank`.
pub open spec fn spec_row64(s: SquareSet, rank: int, nfiles: int) -> Seq<char>
    decreases nfiles,
{
    if nfiles <= 0 {
        Seq::empty()
    } else {
        spec_row64(s, rank, nfiles - 1) + spec_cell64(s.spec_has(rank * 8 + (nfiles - 1)))
    }
}

/// The displayed rows from `rank` down to the bottom, each ended by a
/// newline.
pub open spec fn spec_grid64_from(s: SquareSet, rank: int) -> Seq<char>
    decreases rank + 1,
{
    if rank < 0 {
        Seq::empty()
    } else {
        spec_row64(s, rank, 8) + seq!['\n'] + spec_grid64_from(s, rank - 1)
    }
}

/// The whole displayed grid, highest rank first.
pub open spec fn spec_grid64(s: SquareSet) -> Seq<char> {
    spec_grid64_from(s, 7)
}

impl SquareSet {
    /// Renders the set as an 8x8 grid of `X` and `.` tokens, highest
    /// rank first, for diagnostic reading only.
    pub fn to_grid_string(self) -> (r: String)
        ensures
            r@ == spec_grid64(self),
    {
        proof {
            reveal_strlit("X ");
            reveal_strlit(". ");
            reveal_strlit("\n");
            assert(("X ")@ =~= seq!['X', ' ']);
            assert((". ")@ =~= seq!['.', ' ']);
            assert(("\n")@ =~= seq!['\n']);
        }
        let mut out = String::new();
        proof {
            assert(spec_grid64(self) =~= out@ + spec_grid64_from(self, 7));
        }
        let mut down: u8 = 0;
        while down < 8
            invariant
                down <= 8,
                spec_grid64(self) == out@ + spec_grid64_from(self, 7 - down as int),
            decreases 8 - down,
        {
            let rank = 7 - down;
            let ghost row_start = out@;
            proof {
                assert(out@ =~= row_start + spec_row64(self, rank as int, 0));
            }
            let mut file: u8 = 0;
            while file < 8
                invariant
                    file <= 8,
                    rank == 7 - down,
                    down < 8,
                    out@ == row_start + spec_row64(self, rank as int, file as int),
                decreases 8 - file,
            {
                let ghost cell_idx = rank as int * 8 + file as int;
                proof {
                    reveal_strlit("X ");
                    reveal_strlit(". ");
                    assert(("X ")@ =~= seq!['X', ' ']);
                    assert((". ")@ =~= seq!['.', ' ']);
                    assert(((rank * 8 + file) as u64) == cell_idx as u64);
                    assert(self.spec_has(cell_idx) == ((self.bits >> ((rank * 8 + file) as u64)) & 1
                        == 1));
                    assert(spec_row64(self, rank as int, file as int + 1) == spec_row64(
                        self,
                        rank as int,
                        file as int,
                    ) + spec_cell64(self.spec_has(cell_idx)));
                }
                if (self.bits >> ((rank * 8 + file) as u64)) & 1 == 1 {
                    out.append("X ");
                } else {
                    out.append(". ");
                }
                proof {
                    assert(out@ =~= row_start + spec_row64(self, rank as int, file as int + 1));
                }
                file = file + 1;
            }
            out.append("\n");
            proof {
                reveal_strlit("\n");
                assert(("\n")@ =~= seq!['\n']);
                assert(out@ =~= row_start + (spec_row64(self, rank as int, 8) + seq!['\n']));
                assert(spec_grid64_from(self, rank as int) == spec_row64(self, rank as int, 8)
                    + seq!['\n'] + spec_grid64_from(self, rank as int - 1));
                assert(out@ + spec_grid64_from(self, rank as int - 1) =~= row_start
                    + spec_grid64_from(self, rank as int));
            }
            down = down + 1;
        }
        proof {
            assert(spec_grid64_from(self, -1) =~= Seq::<char>::empty());
            assert(out@ + spec_grid64_from(self, -1) =~= out@);
        }
        out
    }
}

impl Default for SquareSet {
    /// The empty set.
    fn default() -> (r: Self)
        ensures
            r.bits == 0,
    {
        SquareSet { bits: 0 }
    }
}

/// An iterator over the squares of a `SquareSet`, yielding them in
/// increasing index order by repeatedly extracting the lowest set bit.
pub struct SquareSetIter {
    pub set: SquareSet,
}

impl SquareSetIter {
    /// Takes the lowest-index square still in the iterator out of it
    /// and returns it, or returns `None` when none is left.
    pub fn next(&mut self) -> (r: Option<Square8x8>)
        ensures
            match r {
                None => old(self).set.bits == 0 && final(self).set == old(self).set,
                Some(sq) => {
                    &&& sq.wf()
                    &&& old(self).set.spec_contains(sq)
                    &&& forall|i: int| 0 <= i < sq.idx as int ==> !old(self).set.spec_has(i)
                    &&& forall|i: int| #![auto]
                        final(self).set.spec_has(i) == (old(self).set.spec_has(i) && i
                            != sq.idx as int)
                },
            },
    {
        if self.set.bits == 0 {
            None
        } else {
            let sq = self.set.first();
            self.set = self.set.remove_square(sq);
            Some(sq)
        }
    }
}

} // verus!
