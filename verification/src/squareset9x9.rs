//! A bitset over the 81 squares of the 9x9 pawn grid, one bit per
//! `Square9x9` index, backed by a 128-bit word. The grid does not fill
//! the backing word, so every operation keeps the 47 spare high bits
//! clear; that invariant is `wf` and is proved, not merely assumed.

use vstd::prelude::*;
use crate::types::Square9x9;

verus! {

/// All 81 grid bits.
pub const ALL_MASK_9X9: u128 = 0x1_FFFF_FFFF_FFFF_FFFF_FFFF;

/// The mask applied after a west shift: the grid without file i (the
/// east column), whose squares would otherwise wrap a row down.
pub const WEST_SHIFT_MASK: u128 = 0xFF7F_BFDF_EFF7_FBFD_FEFF;

/// The mask applied after an east shift: the grid without file a (the
/// west column), whose squares would otherwise wrap a row up.
pub const EAST_SHIFT_MASK: u128 = 0x1_FEFF_7FBF_DFEF_F7FB_FDFE;

/// Whether bit `i` of `x` is set.
pub open spec fn bit128(x: u128, i: u128) -> bool
    recommends
        i < 128,
{
    (x >> i) & 1 == 1
}

pub(crate) proof fn lemma_bit128_or(x: u128, y: u128, i: u128)
    by (bit_vector)
    requires
        i < 128,
    ensures
        bit128(x | y, i) == (bit128(x, i) || bit128(y, i)),
{
}

pub(crate) proof fn lemma_bit128_and(x: u128, y: u128, i: u128)
    by (bit_vector)
    requires
        i < 128,
    ensures
        bit128(x & y, i) == (bit128(x, i) && bit128(y, i)),
{
}

pub(crate) proof fn lemma_bit128_andnot(x: u128, y: u128, i: u128)
    by (bit_vector)
    requires
        i < 128,
    ensures
        bit128(x & !y, i) == (bit128(x, i) && !bit128(y, i)),
{
}

pub(crate) proof fn lemma_bit128_single(s: u128, i: u128)
    by (bit_vector)
    requires
        s < 128,
        i < 128,
    ensures
        bit128(1u128 << s, i) == (i == s),
{
}

/// The bits of a north shift: every bit moves up one rank and the
/// result is masked to the grid.
pub(crate) proof fn lemma_bit128_north(x: u128, i: u128)
    by (bit_vector)
    requires
        i < 128,
    ensures
        bit128((x << 9u128) & 0x1_FFFF_FFFF_FFFF_FFFF_FFFFu128, i) == (9 <= i < 81 && bit128(
            x,
            (i - 9) as u128,
        )),
{
}

/// The bits of a south shift: every bit moves down one rank.
pub(crate) proof fn lemma_bit128_south(x: u128, i: u128)
    by (bit_vector)
    requires
        i < 128,
    ensures
        bit128(x >> 9u128, i) == (i + 9 < 128 && bit128(x, (i + 9) as u128)),
{
}

/// The bits of an east shift: every bit moves one file east, bits that
/// would wrap into file a drop off, and the result is masked to the
/// grid.
pub(crate) proof fn lemma_bit128_east(x: u128, i: u128)
    by (bit_vector)
    requires
        i < 128,
    ensures
        bit128((x << 1u128) & 0x1_FEFF_7FBF_DFEF_F7FB_FDFEu128, i) == (i < 81 && i % 9 != 0
            && bit128(x, (i - 1) as u128)),
{
}

/// The bits of a west shift: every bit moves one file west, bits that
/// would wrap into file i drop off, and the result is masked to the
/// grid.
pub(crate) proof fn lemma_bit128_west(x: u128, i: u128)
    by (bit_vector)
    requires
        i < 128,
    ensures
        bit128((x >> 1u128) & 0xFF7F_BFDF_EFF7_FBFD_FEFFu128, i) == (i < 81 && i % 9 != 8 && i + 1
            < 128 && bit128(x, (i + 1) as u128)),
{
}

/// The bits of a complement masked to the grid.
pub(crate) proof fn lemma_bit128_complement(x: u128, i: u128)
    by (bit_vector)
    requires
        i < 128,
    ensures
        bit128(!x & 0x1_FFFF_FFFF_FFFF_FFFF_FFFFu128, i) == (i < 81 && !bit128(x, i)),
{
}

/// One step of a scan for the lowest set bit.
pub(crate) proof fn lemma_bit128_scan_step(x: u128, j: u128)
    by (bit_vector)
    requires
        j < 128,
        x & (((1u128 << j) - 1) as u128) == 0,
        !bit128(x, j),
    ensures
        j < 127 ==> x & (((1u128 << ((j + 1) as u128)) - 1) as u128) == 0,
        j == 127 ==> x == 0,
{
}

/// If the low `j` bits of `x` are clear then every bit below `j` reads
/// as zero.
pub(crate) proof fn lemma_bit128_scan_low(x: u128, j: u128, k: u128)
    by (bit_vector)
    requires
        j < 128,
        k < j,
        x & (((1u128 << j) - 1) as u128) == 0,
    ensures
        !bit128(x, k),
{
}

/// The zero word has no set bit.
pub(crate) proof fn lemma_bit128_zero(i: u128)
    by (bit_vector)
    requires
        i < 128,
    ensures
        !bit128(0u128, i),
{
}

/// Below bit zero no bit of any word is set.
pub(crate) proof fn lemma_bit128_mask_zero(x: u128)
    by (bit_vector)
    ensures
        x & (((1u128 << 0u128) - 1) as u128) == 0,
{
}

/// Represents an occupancy of the 9x9 pawn grid. Bit `i` of the
/// backing word stands for the square with index `i`; the bits above
/// the 81 grid squares always read as zero.
#[derive(Debug, Clone, Copy, PartialEq, Eq, Structural, Hash)]
pub struct SquareSet {
    pub bits: u128,
}

impl SquareSet {
    /// The spare high bits of the backing word are clear.
    pub open spec fn wf(self) -> bool {
        forall|i: u128| 81 <= i < 128 ==> !bit128(self.bits, i)
    }

    /// Whether the square with index `i` is in the set.
    pub open spec fn spec_has(self, i: int) -> bool {
        0 <= i < 81 && bit128(self.bits, i as u128)
    }

    /// Whether the given square is in the set.
    pub open spec fn spec_contains(self, square: Square9x9) -> bool {
        self.spec_has(square.idx as int)
    }

    /// Creates a new empty `SquareSet`.
    pub fn new() -> (r: Self)
        ensures
            r.wf(),
            forall|i: int| !r.spec_has(i),
    {
        let r = SquareSet { bits: 0 };
        proof {
            assert forall|i: u128| i < 128 implies !bit128(0u128, i) by {
                lemma_bit128_zero(i);
            }
        }
        r
    }

    /// Returns whether the given square is occupied.
    pub fn contains(self, square: Square9x9) -> (r: bool)
        requires
            square.wf(),
        ensures
            r == self.spec_contains(square),
    {
        (self.bits >> (square.idx as u128)) & 1 == 1
    }

    /// Adds the given square to the set.
    pub fn add(self, square: Square9x9) -> (r: Self)
        requires
            self.wf(),
            square.wf(),
        ensures
            r.wf(),
            forall|i: int| #![auto]
                r.spec_has(i) == (self.spec_has(i) || i == square.idx as int),
    {
        let out = SquareSet { bits: self.bits | (1u128 << (square.idx as u128)) };
        proof {
            assert forall|i: u128| i < 128 implies bit128(out.bits, i) == (bit128(self.bits, i)
                || i == square.idx as u128) by {
                lemma_bit128_or(self.bits, 1u128 << (square.idx as u128), i);
                lemma_bit128_single(square.idx as u128, i);
            }
            assert forall|i: u128| 81 <= i < 128 implies !bit128(out.bits, i) by {
                assert(!bit128(self.bits, i));
            }
        }
        out
    }

    /// Removes the given square from the set.
    pub fn remove(self, square: Square9x9) -> (r: Self)
        requires
            self.wf(),
            square.wf(),
        ensures
            r.wf(),
            forall|i: int| #![auto]
                r.spec_has(i) == (self.spec_has(i) && i != square.idx as int),
    {
        let out = SquareSet { bits: self.bits & !(1u128 << (square.idx as u128)) };
        proof {
            assert forall|i: u128| i < 128 implies bit128(out.bits, i) == (bit128(self.bits, i)
                && i != square.idx as u128) by {
                lemma_bit128_andnot(self.bits, 1u128 << (square.idx as u128), i);
                lemma_bit128_single(square.idx as u128, i);
            }
            assert forall|i: u128| 81 <= i < 128 implies !bit128(out.bits, i) by {
                assert(!bit128(self.bits, i));
            }
        }
        out
    }

    /// Shift the squares up by one rank. Squares on the top rank are
    /// removed.
    pub fn north_one(self) -> (r: Self)
        ensures
            r.wf(),
            forall|i: int| #![auto] r.spec_has(i) == (9 <= i < 81 && self.spec_has(i - 9)),
    {
        let out = SquareSet { bits: (self.bits << 9u128) & ALL_MASK_9X9 };
        proof {
            assert forall|i: u128| i < 128 implies bit128(out.bits, i) == (9 <= i < 81 && bit128(
                self.bits,
                (i - 9) as u128,
            )) by {
                lemma_bit128_north(self.bits, i);
            }
        }
        out
    }

    /// Shift the squares down by one rank. Squares on the bottom rank
    /// are removed.
    pub fn south_one(self) -> (r: Self)
        requires
            self.wf(),
        ensures
            r.wf(),
            forall|i: int| #![auto] r.spec_has(i) == (0 <= i < 72 && self.spec_has(i + 9)),
    {
        let out = SquareSet { bits: self.bits >> 9u128 };
        proof {
            assert forall|i: u128| i < 128 implies bit128(out.bits, i) == (i + 9 < 128 && bit128(
                self.bits,
                (i + 9) as u128,
            )) by {
                lemma_bit128_south(self.bits, i);
            }
        }
        out
    }

    /// Shift the squares left (west) by one file. Squares on the west
    /// column are removed.
    pub fn west_one(self) -> (r: Self)
        requires
            self.wf(),
        ensures
            r.wf(),
            forall|i: int| #![auto]
                r.spec_has(i) == (0 <= i < 81 && i % 9 != 8 && self.spec_has(i + 1)),
    {
        let out = SquareSet { bits: (self.bits >> 1u128) & (WEST_SHIFT_MASK) };
        proof {
            assert forall|i: u128| i < 128 implies bit128(out.bits, i) == (i < 81 && i % 9 != 8 && i
                + 1 < 128 && bit128(self.bits, (i + 1) as u128)) by {
                lemma_bit128_west(self.bits, i);
            }
        }
        out
    }

    /// Shift the squares right (east) by one file. Squares on the east
    /// column are removed.
    pub fn east_one(self) -> (r: Self)
        ensures
            r.wf(),
            forall|i: int| #![auto]
                r.spec_has(i) == (0 < i < 81 && i % 9 != 0 && self.spec_has(i - 1)),
    {
        let out = SquareSet { bits: (self.bits << 1u128) & (EAST_SHIFT_MASK) };
        proof {
            assert forall|i: u128| i < 128 implies bit128(out.bits, i) == (i < 81 && i % 9 != 0
                && bit128(self.bits, (i - 1) as u128)) by {
                lemma_bit128_east(self.bits, i);
            }
        }
        out
    }

    /// The squares of the grid that are not in the set.
    pub fn complement(self) -> (r: Self)
        ensures
            r.wf(),
            forall|i: int| #![auto] r.spec_has(i) == (0 <= i < 81 && !self.spec_has(i)),
    {
        let out = SquareSet { bits: !self.bits & ALL_MASK_9X9 };
        proof {
            assert forall|i: u128| i < 128 implies bit128(out.bits, i) == (i < 81 && !bit128(
                self.bits,
                i,
            )) by {
                lemma_bit128_complement(self.bits, i);
            }
        }
        out
    }

    /// The squares in both `self` and `other`.
    pub fn intersection(self, other: Self) -> (r: Self)
        requires
            self.wf(),
        ensures
            r.wf(),
            forall|i: int| #![auto] r.spec_has(i) == (self.spec_has(i) && other.spec_has(i)),
    {
        let out = SquareSet { bits: self.bits & other.bits };
        proof {
            assert forall|i: u128| i < 128 implies bit128(out.bits, i) == (bit128(self.bits, i)
                && bit128(other.bits, i)) by {
                lemma_bit128_and(self.bits, other.bits, i);
            }
            assert forall|i: u128| 81 <= i < 128 implies !bit128(out.bits, i) by {
                assert(!bit128(self.bits, i));
            }
        }
        out
    }

    /// The squares in `self` or `other` or both.
    pub fn union(self, other: Self) -> (r: Self)
        requires
            self.wf(),
            other.wf(),
        ensures
            r.wf(),
            forall|i: int| #![auto] r.spec_has(i) == (self.spec_has(i) || other.spec_has(i)),
    {
        let out = SquareSet { bits: self.bits | other.bits };
        proof {
            assert forall|i: u128| i < 128 implies bit128(out.bits, i) == (bit128(self.bits, i)
                || bit128(other.bits, i)) by {
                lemma_bit128_or(self.bits, other.bits, i);
            }
            assert forall|i: u128| 81 <= i < 128 implies !bit128(out.bits, i) by {
                assert(!bit128(self.bits, i));
                assert(!bit128(other.bits, i));
            }
        }
        out
    }

    /// An iterator over the squares of the set, lowest index first.
    pub fn iter(self) -> (r: SquareSetIter)
        requires
            self.wf(),
        ensures
            r.set == self,
    {
        SquareSetIter { set: self }
    }
}

/// The two characters of one displayed cell.
pub open spec fn spec_cell81(occupied: bool) -> Seq<char> {
    if occupied {
        seq!['X', ' ']
    } else {
        seq!['.', ' ']
    }
}

/// One displayed row of the grid: the first `nfiles` cells of `rank`.
pub open spec fn spec_row81(s: SquareSet, rank: int, nfiles: int) -> Seq<char>
    decreases nfiles,
{
    if nfiles <= 0 {
        Seq::empty()
    } else {
        spec_row81(s, rank, nfiles - 1) + spec_cell81(s.spec_has(rank * 9 + (nfiles - 1)))
    }
}

/// The displayed rows from `rank` down to the bottom, each ended by a
/// newline.
pub open spec fn spec_grid81_from(s: SquareSet, rank: int) -> Seq<char>
    decreases rank + 1,
{
    if rank < 0 {
        Seq::empty()
    } else {
        spec_row81(s, rank, 9) + seq!['\n'] + spec_grid81_from(s, rank - 1)
    }
}

/// The whole displayed grid, highest rank first.
pub open spec fn spec_grid81(s: SquareSet) -> Seq<char> {
    spec_grid81_from(s, 8)
}

impl SquareSet {
    /// Renders the set as a 9x9 grid of `X` and `.` tokens, highest
    /// rank first, for diagnostic reading only. The `wf` invariant —
    /// no occupancy outside the board — holds of the rendered set by
    /// proof rather than by a run-time check.
    pub fn to_grid_string(self) -> (r: String)
        requires
            self.wf(),
        ensures
            r@ == spec_grid81(self),
    {
        let mut out = String::new();
        proof {
            assert(spec_grid81(self) =~= out@ + spec_grid81_from(self, 8));
        }
        let mut down: u8 = 0;
        while down < 9
            invariant
                down <= 9,
                spec_grid81(self) == out@ + spec_grid81_from(self, 8 - down as int),
            decreases 9 - down,
        {
            let rank = 8 - down;
            let ghost row_start = out@;
            proof {
                assert(out@ =~= row_start + spec_row81(self, rank as int, 0));
            }
            let mut file: u8 = 0;
            while file < 9
                invariant
                    file <= 9,
                    rank == 8 - down,
                    down < 9,
                    out@ == row_start + spec_row81(self, rank as int, file as int),
                decreases 9 - file,
            {
                let ghost cell_idx = rank as int * 9 + file as int;
                proof {
                    reveal_strlit("X ");
                    reveal_strlit(". ");
                    assert(("X ")@ =~= seq!['X', ' ']);
                    assert((". ")@ =~= seq!['.', ' ']);
                    assert(((rank * 9 + file) as u128) == cell_idx as u128);
                    assert(self.spec_has(cell_idx) == ((self.bits >> ((rank * 9 + file) as u128))
                        & 1 == 1));
                    assert(spec_row81(self, rank as int, file as int + 1) == spec_row81(
                        self,
                        rank as int,
                        file as int,
                    ) + spec_cell81(self.spec_has(cell_idx)));
                }
                if (self.bits >> ((rank * 9 + file) as u128)) & 1 == 1 {
                    out.append("X ");
                } else {
                    out.append(". ");
                }
                proof {
                    assert(out@ =~= row_start + spec_row81(self, rank as int, file as int + 1));
                }
                file = file + 1;
            }
            out.append("\n");
            proof {
                reveal_strlit("\n");
                assert(("\n")@ =~= seq!['\n']);
                assert(out@ =~= row_start + (spec_row81(self, rank as int, 9) + seq!['\n']));
                assert(spec_grid81_from(self, rank as int) == spec_row81(self, rank as int, 9)
                    + seq!['\n'] + spec_grid81_from(self, rank as int - 1));
                assert(out@ + spec_grid81_from(self, rank as int - 1) =~= row_start
                    + spec_grid81_from(self, rank as int));
            }
            down = down + 1;
        }
        proof {
            assert(spec_grid81_from(self, -1) =~= Seq::<char>::empty());
            assert(out@ + spec_grid81_from(self, -1) =~= out@);
        }
        out
    }
}

impl Default for SquareSet {
    /// The empty set.
    fn default() -> (r: Self)
        ensures
            r.wf(),
            forall|i: int| !r.spec_has(i),
    {
        SquareSet::new()
    }
}

/// An iterator over the squares of a 9x9 `SquareSet`, yielding them in
/// increasing index order by repeatedly extracting the lowest set bit.
pub struct SquareSetIter {
    pub set: SquareSet,
}

impl SquareSetIter {
    /// Takes the lowest-index square still in the iterator out of it
    /// and returns it, or returns `None` when none is left.
    pub fn next(&mut self) -> (r: Option<Square9x9>)
        requires
            old(self).set.wf(),
        ensures
            final(self).set.wf(),
            match r {
                None => old(self).set.bits == 0 && final(self).set == old(self).set,
                Some(sq) => {
                    &&& sq.wf()
                    &&& old(self).set.spec_contains(sq)
                    &&& forall|i: int| 0 <= i < sq.idx as int ==> !old(self).set.spec_has(i)
                    &&& forall|i: int| #![auto]
                        final(self).set.spec_has(i) == (old(self).set.spec_has(i) && i
                            != sq.idx as int)
                },
            },
    {
        if self.set.bits == 0 {
            None
        } else {
            let mut j: u8 = 0;
            proof {
                lemma_bit128_mask_zero(self.set.bits);
            }
            loop
                invariant
                    j < 128,
                    self.set == old(self).set,
                    self.set.wf(),
                    self.set.bits != 0,
                    self.set.bits & (((1u128 << (j as u128)) - 1) as u128) == 0,
                decreases 128 - j,
            {
                if (self.set.bits >> (j as u128)) & 1 == 1 {
                    proof {
                        assert forall|i: int| 0 <= i < j as int implies !self.set.spec_has(i) by {
                            lemma_bit128_scan_low(self.set.bits, j as u128, i as u128);
                        }
                        if j >= 81 {
                            assert(!bit128(self.set.bits, j as u128));
                        }
                    }
                    let sq = Square9x9 { idx: j };
                    self.set = self.set.remove(sq);
                    return Some(sq);
                }
                proof {
                    lemma_bit128_scan_step(self.set.bits, j as u128);
                }
                if j == 127 {
                    // a non-empty word has a set bit, so the scan
                    // cannot run past the last one
                    proof {
                        assert(false);
                    }
                }
                j = j + 1;
            }
        }
    }
}

} // verus!
