//! The full game state: two pawn positions, the placed walls of each
//! orientation, each player's remaining wall count, and the ply
//! counter that decides whose turn it is; with the legal-move
//! generator as a pure function of that state.

use vstd::prelude::*;
use crate::squareset::SquareSet;
use crate::squareset::lemma_insert_pointwise;
use crate::squareset::lemma_empty_set_has_none;
use crate::types::{Move, Square8x8, Square9x9, WallOrientation};

verus! {

/// A compact board state. Pawns live on the 9x9 grid; walls are two
/// occupancy sets over the 8x8 crossing grid, one per orientation.
#[derive(Copy, Clone, Debug, PartialEq, Eq, Structural, Hash)]
pub struct Board {
    /// The first player's pawn; this player moves on even plies and
    /// starts on square e1.
    pub pawn0: Square9x9,
    /// The second player's pawn; this player moves on odd plies and
    /// starts on square e9.
    pub pawn1: Square9x9,
    /// The crossing points carrying a horizontal wall.
    pub horizontal_walls: SquareSet,
    /// The crossing points carrying a vertical wall.
    pub vertical_walls: SquareSet,
    /// How many walls the first player may still place.
    pub pocket0: u8,
    /// How many walls the second player may still place.
    pub pocket1: u8,
    /// Plies since the start of the game; its parity is the side to
    /// move.
    pub ply: u16,
}

/// The square one rank up.
pub open spec fn up9(s: Square9x9) -> Square9x9 {
    Square9x9 { idx: (s.idx + 9) as u8 }
}

/// The square one rank down.
pub open spec fn down9(s: Square9x9) -> Square9x9 {
    Square9x9 { idx: (s.idx - 9) as u8 }
}

/// The square one file to the west.
pub open spec fn left9(s: Square9x9) -> Square9x9 {
    Square9x9 { idx: (s.idx - 1) as u8 }
}

/// The square one file to the east.
pub open spec fn right9(s: Square9x9) -> Square9x9 {
    Square9x9 { idx: (s.idx + 1) as u8 }
}

/// The index of the wall-crossing point at the same file and rank as
/// a pawn square; meaningful when both are below 8.
pub open spec fn crossing_idx(s: Square9x9) -> int {
    s.spec_file() + s.spec_rank() * 8
}

/// Whether a horizontal wall is anchored at the crossing point of `s`
/// (no, when `s` has no crossing point).
pub open spec fn hwall_at(b: Board, s: Square9x9) -> bool {
    s.spec_file() < 8 && s.spec_rank() < 8 && b.horizontal_walls.spec_has(crossing_idx(s))
}

/// Whether a vertical wall is anchored at the crossing point of `s`.
pub open spec fn vwall_at(b: Board, s: Square9x9) -> bool {
    s.spec_file() < 8 && s.spec_rank() < 8 && b.vertical_walls.spec_has(crossing_idx(s))
}

/// Whether the edge between `s` and the square above it is blocked: a
/// horizontal wall spans two unit edges, so the crossing point at `s`
/// and the one at its west neighbour both cover that edge.
pub open spec fn spec_blocked_above(b: Board, s: Square9x9) -> bool {
    hwall_at(b, s) || (s.spec_file() > 0 && hwall_at(b, left9(s)))
}

/// Whether the edge between `s` and the square east of it is blocked:
/// a vertical wall spans two unit edges, so the crossing point at `s`
/// and the one at its south neighbour both cover that edge.
pub open spec fn spec_blocked_east(b: Board, s: Square9x9) -> bool {
    vwall_at(b, s) || (s.spec_rank() > 0 && vwall_at(b, down9(s)))
}

/// The destination of the mover's northward pawn move, if any: the
/// square above, or the square past an adjacent opponent when the
/// straight jump over it is open; no move otherwise.
pub open spec fn spec_pawn_dest_north(b: Board) -> Option<Square9x9> {
    let p = b.mover();
    let q = b.sleeper();
    if p.spec_rank() < 8 && !spec_blocked_above(b, p) {
        let t = up9(p);
        if t == q {
            if t.spec_rank() < 8 && !spec_blocked_above(b, t) {
                Some(up9(t))
            } else {
                None
            }
        } else {
            Some(t)
        }
    } else {
        None
    }
}

/// The destination of the mover's southward pawn move, if any.
pub open spec fn spec_pawn_dest_south(b: Board) -> Option<Square9x9> {
    let p = b.mover();
    let q = b.sleeper();
    if p.spec_rank() > 0 && !spec_blocked_above(b, down9(p)) {
        let t = down9(p);
        if t == q {
            if t.spec_rank() > 0 && !spec_blocked_above(b, down9(t)) {
                Some(down9(t))
            } else {
                None
            }
        } else {
            Some(t)
        }
    } else {
        None
    }
}

/// The destination of the mover's westward pawn move, if any.
pub open spec fn spec_pawn_dest_west(b: Board) -> Option<Square9x9> {
    let p = b.mover();
    let q = b.sleeper();
    if p.spec_file() > 0 && !spec_blocked_east(b, left9(p)) {
        let t = left9(p);
        if t == q {
            if t.spec_file() > 0 && !spec_blocked_east(b, left9(t)) {
                Some(left9(t))
            } else {
                None
            }
        } else {
            Some(t)
        }
    } else {
        None
    }
}

/// The destination of the mover's eastward pawn move, if any.
pub open spec fn spec_pawn_dest_east(b: Board) -> Option<Square9x9> {
    let p = b.mover();
    let q = b.sleeper();
    if p.spec_file() < 8 && !spec_blocked_east(b, p) {
        let t = right9(p);
        if t == q {
            if t.spec_file() < 8 && !spec_blocked_east(b, t) {
                Some(right9(t))
            } else {
                None
            }
        } else {
            Some(t)
        }
    } else {
        None
    }
}

/// A pawn-move destination as a sequence of zero or one moves.
pub open spec fn opt_move_seq(o: Option<Square9x9>) -> Seq<Move> {
    match o {
        Some(t) => seq![Move::Pawn { to_square: t }],
        None => Seq::empty(),
    }
}

/// The mover's pawn moves, in the fixed priority order north, south,
/// west, east.
pub open spec fn spec_pawn_moves(b: Board) -> Seq<Move> {
    opt_move_seq(spec_pawn_dest_north(b)) + opt_move_seq(spec_pawn_dest_south(b)) + opt_move_seq(
        spec_pawn_dest_west(b),
    ) + opt_move_seq(spec_pawn_dest_east(b))
}

/// Whether a wall of the given orientation may be placed at crossing
/// index `i`: the point must be free of walls of either orientation,
/// and the same-orientation neighbours along the wall's length (east
/// and west for horizontal, north and south for vertical) must be
/// free too, because every wall spans two adjacent crossing points.
pub open spec fn spec_wall_open(b: Board, o: WallOrientation, i: int) -> bool {
    match o {
        WallOrientation::Horizontal => {
            &&& 0 <= i < 64
            &&& !b.horizontal_walls.spec_has(i)
            &&& !(i % 8 > 0 && b.horizontal_walls.spec_has(i - 1))
            &&& !(i % 8 < 7 && b.horizontal_walls.spec_has(i + 1))
            &&& !b.vertical_walls.spec_has(i)
        },
        WallOrientation::Vertical => {
            &&& 0 <= i < 64
            &&& !b.vertical_walls.spec_has(i)
            &&& !(i >= 8 && b.vertical_walls.spec_has(i - 8))
            &&& !(i < 56 && b.vertical_walls.spec_has(i + 8))
            &&& !b.horizontal_walls.spec_has(i)
        },
    }
}

/// The legal wall moves of one orientation with crossing index below
/// `n`, in increasing index order.
pub open spec fn spec_wall_moves_upto(b: Board, o: WallOrientation, n: int) -> Seq<Move>
    decreases n,
{
    if n <= 0 {
        Seq::empty()
    } else {
        spec_wall_moves_upto(b, o, n - 1) + if spec_wall_open(b, o, n - 1) {
            seq![Move::Wall { to_square: Square8x8 { idx: (n - 1) as u8 }, orientation: o }]
        } else {
            Seq::empty()
        }
    }
}

/// All legal wall moves of one orientation, in increasing index order.
pub open spec fn spec_wall_moves(b: Board, o: WallOrientation) -> Seq<Move> {
    spec_wall_moves_upto(b, o, 64)
}

/// The legal moves of the side to move, in generation order: the pawn
/// moves, then every horizontal wall placement, then every vertical
/// wall placement; no wall moves at all when the mover's pocket is
/// empty.
pub open spec fn spec_legal_moves(b: Board) -> Seq<Move> {
    spec_pawn_moves(b) + if b.mover_pocket() > 0 {
        spec_wall_moves(b, WallOrientation::Horizontal) + spec_wall_moves(
            b,
            WallOrientation::Vertical,
        )
    } else {
        Seq::empty()
    }
}

/// What a move must satisfy for `make_move` to keep the board well
/// formed: a pawn move may not land on the resting pawn, and a wall
/// move needs a wall in the pocket and a crossing point free of the
/// opposite orientation. Every legal move satisfies this
/// (`lemma_legal_move_allowed`).
pub open spec fn spec_move_allowed(b: Board, m: Move) -> bool {
    match m {
        Move::Pawn { to_square } => to_square.wf() && to_square != b.sleeper(),
        Move::Wall { to_square, orientation } => {
            &&& to_square.wf()
            &&& b.mover_pocket() > 0
            &&& match orientation {
                WallOrientation::Horizontal => !b.vertical_walls.spec_contains(to_square),
                WallOrientation::Vertical => !b.horizontal_walls.spec_contains(to_square),
            }
        },
    }
}

/// The successor state of a move: a pawn move rewrites the mover's
/// pawn, a wall move takes a wall out of the mover's pocket and adds
/// the crossing point to the matching set; either way the ply advances
/// by one.
pub open spec fn spec_apply(b: Board, m: Move) -> Board {
    let stepped = match m {
        Move::Pawn { to_square } => {
            if b.spec_turn() == 0 {
                Board { pawn0: to_square, ..b }
            } else {
                Board { pawn1: to_square, ..b }
            }
        },
        Move::Wall { to_square, orientation } => {
            let pocketed = if b.spec_turn() == 0 {
                Board { pocket0: (b.pocket0 - 1) as u8, ..b }
            } else {
                Board { pocket1: (b.pocket1 - 1) as u8, ..b }
            };
            match orientation {
                WallOrientation::Horizontal => Board {
                    horizontal_walls: b.horizontal_walls.spec_insert(to_square.idx as int),
                    ..pocketed
                },
                WallOrientation::Vertical => Board {
                    vertical_walls: b.vertical_walls.spec_insert(to_square.idx as int),
                    ..pocketed
                },
            }
        },
    };
    Board { ply: (b.ply + 1) as u16, ..stepped }
}

/// The starting position: pawns on e1 and e9, no walls placed, ten
/// walls in each pocket, first player to move.
pub open spec fn spec_initial_board() -> Board {
    Board {
        pawn0: Square9x9 { idx: 4 },
        pawn1: Square9x9 { idx: 76 },
        horizontal_walls: SquareSet { bits: 0 },
        vertical_walls: SquareSet { bits: 0 },
        pocket0: 10,
        pocket1: 10,
        ply: 0,
    }
}

impl Board {
    /// Which side moves: 0 on even plies (first player), 1 on odd.
    pub open spec fn spec_turn(self) -> int {
        self.ply as int % 2
    }

    /// The pawn of the side to move.
    pub open spec fn mover(self) -> Square9x9 {
        if self.spec_turn() == 0 {
            self.pawn0
        } else {
            self.pawn1
        }
    }

    /// The pawn of the side not to move.
    pub open spec fn sleeper(self) -> Square9x9 {
        if self.spec_turn() == 0 {
            self.pawn1
        } else {
            self.pawn0
        }
    }

    /// The remaining wall count of the side to move.
    pub open spec fn mover_pocket(self) -> int {
        if self.spec_turn() == 0 {
            self.pocket0 as int
        } else {
            self.pocket1 as int
        }
    }

    /// A board is well formed when both pawns are on the grid and on
    /// different squares, neither pocket exceeds the initial allotment
    /// of ten walls, and no crossing point carries walls of both
    /// orientations.
    pub open spec fn wf(self) -> bool {
        &&& self.pawn0.wf()
        &&& self.pawn1.wf()
        &&& self.pawn0 != self.pawn1
        &&& self.pocket0 <= 10
        &&& self.pocket1 <= 10
        &&& forall|i: int|
            !(self.horizontal_walls.spec_has(i) && self.vertical_walls.spec_has(i))
    }

    /// Sets both players' remaining wall counts; a fixture hook for
    /// building test positions.
    pub fn set_walls_in_pocket(&mut self, white: u8, black: u8)
        requires
            white <= 10,
            black <= 10,
        ensures
            *final(self) == (Board { pocket0: white, pocket1: black, ..*old(self) }),
            old(self).wf() ==> final(self).wf(),
    {
        self.pocket0 = white;
        self.pocket1 = black;
    }

    /// Advances the ply with no other change, so that the same
    /// position can be examined from the other player's point of
    /// view. A real game has no such move.
    pub fn pass_turn(&mut self)
        requires
            old(self).ply < 0xFFFF,
        ensures
            *final(self) == (Board { ply: (old(self).ply + 1) as u16, ..*old(self) }),
            old(self).wf() ==> final(self).wf(),
    {
        self.ply = self.ply + 1;
    }

    /// Plays a move: rewrites the mover's pawn, or spends a wall from
    /// the mover's pocket and records it at its crossing point; then
    /// advances the ply. The move must be one that `make_move` can
    /// apply soundly; every move the generator yields qualifies.
    pub fn make_move(&mut self, mv: Move)
        requires
            old(self).wf(),
            spec_move_allowed(*old(self), mv),
            old(self).ply < 0xFFFF,
        ensures
            *final(self) == spec_apply(*old(self), mv),
            final(self).wf(),
    {
        let ghost pre = *self;
        match mv {
            Move::Pawn { to_square } => {
                if self.ply % 2 == 0 {
                    self.pawn0 = to_square;
                } else {
                    self.pawn1 = to_square;
                }
            },
            Move::Wall { to_square, orientation } => {
                if self.ply % 2 == 0 {
                    self.pocket0 = self.pocket0 - 1;
                } else {
                    self.pocket1 = self.pocket1 - 1;
                }
                match orientation {
                    WallOrientation::Horizontal => {
                        self.horizontal_walls = self.horizontal_walls.add_square(to_square);
                        proof {
                            lemma_insert_pointwise(pre.horizontal_walls, to_square.idx as int);
                        }
                    },
                    WallOrientation::Vertical => {
                        self.vertical_walls = self.vertical_walls.add_square(to_square);
                        proof {
                            lemma_insert_pointwise(pre.vertical_walls, to_square.idx as int);
                        }
                    },
                }
            },
        }
        self.ply = self.ply + 1;
    }
}

impl Board {
    /// The pawn of the side to move.
    fn mover_pawn(&self) -> (r: Square9x9)
        ensures
            r == self.mover(),
    {
        if self.ply % 2 == 0 {
            self.pawn0
        } else {
            self.pawn1
        }
    }

    /// The pawn of the side not to move.
    fn sleeper_pawn(&self) -> (r: Square9x9)
        ensures
            r == self.sleeper(),
    {
        if self.ply % 2 == 0 {
            self.pawn1
        } else {
            self.pawn0
        }
    }

    /// Whether a horizontal wall blocks the edge between `s` and the
    /// square above it.
    fn blocked_above(&self, s: Square9x9) -> (r: bool)
        requires
            s.wf(),
        ensures
            r == spec_blocked_above(*self, s),
    {
        let here = match s.to_square8x8() {
            Some(c) => self.horizontal_walls.contains_square(c),
            None => false,
        };
        let west = match s.left() {
            Some(l) => match l.to_square8x8() {
                Some(c) => self.horizontal_walls.contains_square(c),
                None => false,
            },
            None => false,
        };
        here || west
    }

    /// Whether a vertical wall blocks the edge between `s` and the
    /// square east of it.
    fn blocked_east(&self, s: Square9x9) -> (r: bool)
        requires
            s.wf(),
        ensures
            r == spec_blocked_east(*self, s),
    {
        let here = match s.to_square8x8() {
            Some(c) => self.vertical_walls.contains_square(c),
            None => false,
        };
        let south = match s.below() {
            Some(d) => match d.to_square8x8() {
                Some(c) => self.vertical_walls.contains_square(c),
                None => false,
            },
            None => false,
        };
        here || south
    }

    /// The mover's northward pawn-move destination, if any.
    fn dest_north(&self) -> (r: Option<Square9x9>)
        requires
            self.wf(),
        ensures
            r == spec_pawn_dest_north(*self),
    {
        let p = self.mover_pawn();
        let q = self.sleeper_pawn();
        match p.above() {
            None => None,
            Some(t) => {
                if self.blocked_above(p) {
                    None
                } else if t == q {
                    match t.above() {
                        None => None,
                        Some(u) => if self.blocked_above(t) {
                            None
                        } else {
                            Some(u)
                        },
                    }
                } else {
                    Some(t)
                }
            },
        }
    }

    /// The mover's southward pawn-move destination, if any.
    fn dest_south(&self) -> (r: Option<Square9x9>)
        requires
            self.wf(),
        ensures
            r == spec_pawn_dest_south(*self),
    {
        let p = self.mover_pawn();
        let q = self.sleeper_pawn();
        match p.below() {
            None => None,
            Some(t) => {
                if self.blocked_above(t) {
                    None
                } else if t == q {
                    match t.below() {
                        None => None,
                        Some(u) => if self.blocked_above(u) {
                            None
                        } else {
                            Some(u)
                        },
                    }
                } else {
                    Some(t)
                }
            },
        }
    }

    /// The mover's westward pawn-move destination, if any.
    fn dest_west(&self) -> (r: Option<Square9x9>)
        requires
            self.wf(),
        ensures
            r == spec_pawn_dest_west(*self),
    {
        let p = self.mover_pawn();
        let q = self.sleeper_pawn();
        match p.left() {
            None => None,
            Some(t) => {
                if self.blocked_east(t) {
                    None
                } else if t == q {
                    match t.left() {
                        None => None,
                        Some(u) => if self.blocked_east(u) {
                            None
                        } else {
                            Some(u)
                        },
                    }
                } else {
                    Some(t)
                }
            },
        }
    }

    /// The mover's eastward pawn-move destination, if any.
    fn dest_east(&self) -> (r: Option<Square9x9>)
        requires
            self.wf(),
        ensures
            r == spec_pawn_dest_east(*self),
    {
        let p = self.mover_pawn();
        let q = self.sleeper_pawn();
        match p.right() {
            None => None,
            Some(t) => {
                if self.blocked_east(p) {
                    None
                } else if t == q {
                    match t.right() {
                        None => None,
                        Some(u) => if self.blocked_east(t) {
                            None
                        } else {
                            Some(u)
                        },
                    }
                } else {
                    Some(t)
                }
            },
        }
    }

    /// The mover's pawn moves as a vector, in priority order.
    fn pawn_moves_vec(&self) -> (moves: Vec<Move>)
        requires
            self.wf(),
        ensures
            moves@ == spec_pawn_moves(*self),
    {
        let mut moves: Vec<Move> = Vec::new();
        if let Some(t) = self.dest_north() {
            moves.push(Move::Pawn { to_square: t });
        }
        if let Some(t) = self.dest_south() {
            moves.push(Move::Pawn { to_square: t });
        }
        if let Some(t) = self.dest_west() {
            moves.push(Move::Pawn { to_square: t });
        }
        if let Some(t) = self.dest_east() {
            moves.push(Move::Pawn { to_square: t });
        }
        proof {
            assert(moves@ =~= spec_pawn_moves(*self));
        }
        moves
    }

    /// The crossing points where a horizontal wall may still be
    /// placed, as a set: the complement of the points blocked by an
    /// existing horizontal wall at the point or at either neighbour
    /// along the rank, or by a vertical wall at the point.
    fn open_horizontal(&self) -> (r: SquareSet)
        ensures
            forall|k: int| #![auto]
                0 <= k < 64 ==> r.spec_has(k) == spec_wall_open(
                    *self,
                    WallOrientation::Horizontal,
                    k,
                ),
    {
        let h1 = self.horizontal_walls.union(self.horizontal_walls.east_one());
        let h2 = h1.union(h1.west_one());
        let h3 = h2.union(self.vertical_walls);
        let open_h = h3.complement();
        proof {
            assert forall|i: int| 0 <= i < 64 implies open_h.spec_has(i) == spec_wall_open(
                *self,
                WallOrientation::Horizontal,
                i,
            ) by {
                assert(h1.spec_has(i + 1) == (self.horizontal_walls.spec_has(i + 1) || ((i + 1) % 8
                    > 0 && self.horizontal_walls.spec_has(i))));
                assert(h1.spec_has(i) == (self.horizontal_walls.spec_has(i) || (i % 8 > 0
                    && self.horizontal_walls.spec_has(i - 1))));
            }
        }
        open_h
    }

    /// The crossing points where a vertical wall may still be placed.
    fn open_vertical(&self) -> (r: SquareSet)
        ensures
            forall|k: int| #![auto]
                0 <= k < 64 ==> r.spec_has(k) == spec_wall_open(*self, WallOrientation::Vertical, k),
    {
        let v1 = self.vertical_walls.union(self.vertical_walls.north_one());
        let v2 = v1.union(v1.south_one());
        let v3 = v2.union(self.horizontal_walls);
        let open_v = v3.complement();
        proof {
            assert forall|i: int| 0 <= i < 64 implies open_v.spec_has(i) == spec_wall_open(
                *self,
                WallOrientation::Vertical,
                i,
            ) by {
                assert(v1.spec_has(i + 8) == (self.vertical_walls.spec_has(i + 8) || (i + 8 < 64
                    && self.vertical_walls.spec_has(i))));
                assert(v1.spec_has(i) == (self.vertical_walls.spec_has(i) || (i >= 8
                    && self.vertical_walls.spec_has(i - 8))));
            }
        }
        open_v
    }

    /// Appends every wall move of one orientation, in increasing
    /// crossing index order, given the set of open crossing points.
    fn append_wall_moves(&self, o: WallOrientation, open_set: SquareSet, moves: &mut Vec<Move>)
        requires
            forall|k: int| #![auto]
                0 <= k < 64 ==> open_set.spec_has(k) == spec_wall_open(*self, o, k),
        ensures
            final(moves)@ == old(moves)@ + spec_wall_moves(*self, o),
    {
        let mut i: u8 = 0;
        while i < 64
            invariant
                i <= 64,
                moves@ == old(moves)@ + spec_wall_moves_upto(*self, o, i as int),
                forall|k: int| #![auto]
                    0 <= k < 64 ==> open_set.spec_has(k) == spec_wall_open(*self, o, k),
            decreases 64 - i,
        {
            if open_set.contains_square(Square8x8 { idx: i }) {
                moves.push(Move::Wall { to_square: Square8x8 { idx: i }, orientation: o });
            }
            proof {
                assert(moves@ =~= old(moves)@ + spec_wall_moves_upto(*self, o, i as int + 1));
            }
            i = i + 1;
        }
    }

    /// Enumerates the legal moves of the side to move, in the fixed
    /// order of `spec_legal_moves`: pawn moves first (north, south,
    /// west, east), then horizontal wall placements by increasing
    /// crossing index, then vertical ones.
    pub fn generate_moves(&self) -> (moves: Vec<Move>)
        requires
            self.wf(),
        ensures
            moves@ == spec_legal_moves(*self),
    {
        let mut moves = self.pawn_moves_vec();
        let pocket = if self.ply % 2 == 0 {
            self.pocket0
        } else {
            self.pocket1
        };
        if pocket == 0 {
            proof {
                assert(moves@ =~= spec_legal_moves(*self));
            }
            return moves;
        }
        let open_h = self.open_horizontal();
        self.append_wall_moves(WallOrientation::Horizontal, open_h, &mut moves);
        let open_v = self.open_vertical();
        self.append_wall_moves(WallOrientation::Vertical, open_v, &mut moves);
        proof {
            assert(moves@ =~= spec_legal_moves(*self));
        }
        moves
    }
}

/// Every pawn destination the move specification can yield is on the
/// grid and distinct from the resting pawn.
proof fn lemma_pawn_dests_ok(b: Board)
    requires
        b.wf(),
    ensures
        match spec_pawn_dest_north(b) {
            Some(t) => t.wf() && t != b.sleeper(),
            None => true,
        },
        match spec_pawn_dest_south(b) {
            Some(t) => t.wf() && t != b.sleeper(),
            None => true,
        },
        match spec_pawn_dest_west(b) {
            Some(t) => t.wf() && t != b.sleeper(),
            None => true,
        },
        match spec_pawn_dest_east(b) {
            Some(t) => t.wf() && t != b.sleeper(),
            None => true,
        },
{
    let p = b.mover();
    let q = b.sleeper();
    assert(p.wf() && q.wf());
    assert(p.idx as int == 9 * (p.idx as int / 9) + (p.idx as int % 9));
    assert(q.idx as int == 9 * (q.idx as int / 9) + (q.idx as int % 9));
}

/// A member of the wall-move sequence of one orientation is a wall
/// move at an open crossing index below the bound.
proof fn lemma_wall_moves_upto_member(b: Board, o: WallOrientation, n: int, m: Move)
    requires
        0 <= n <= 64,
        spec_wall_moves_upto(b, o, n).contains(m),
    ensures
        exists|i: int|
            0 <= i < n && #[trigger] spec_wall_open(b, o, i) && m == (Move::Wall {
                to_square: Square8x8 { idx: i as u8 },
                orientation: o,
            }),
    decreases n,
{
    let s = spec_wall_moves_upto(b, o, n);
    let k = choose|k: int| 0 <= k < s.len() && s[k] == m;
    assert(n > 0);
    let prev = spec_wall_moves_upto(b, o, n - 1);
    if k < prev.len() {
        assert(prev.contains(m)) by {
            assert(prev[k] == m);
        }
        lemma_wall_moves_upto_member(b, o, n - 1, m);
        let i = choose|i: int|
            0 <= i < n - 1 && #[trigger] spec_wall_open(b, o, i) && m == (Move::Wall {
                to_square: Square8x8 { idx: i as u8 },
                orientation: o,
            });
        assert(0 <= i < n && spec_wall_open(b, o, i));
    } else {
        assert(spec_wall_open(b, o, n - 1));
        assert(m == (Move::Wall { to_square: Square8x8 { idx: (n - 1) as u8 }, orientation: o }));
    }
}

/// Every move the generator yields can be applied soundly: it
/// satisfies `spec_move_allowed`, and the successor state is well
/// formed again.
pub proof fn lemma_legal_move_allowed(b: Board, m: Move)
    requires
        b.wf(),
        spec_legal_moves(b).contains(m),
    ensures
        spec_move_allowed(b, m),
        spec_apply(b, m).wf(),
{
    let pm = spec_pawn_moves(b);
    let lm = spec_legal_moves(b);
    let k = choose|k: int| 0 <= k < lm.len() && lm[k] == m;
    if k < pm.len() {
        assert(pm[k] == m);
        lemma_pawn_dests_ok(b);
        assert(spec_move_allowed(b, m)) by {
            let s1 = opt_move_seq(spec_pawn_dest_north(b));
            let s2 = opt_move_seq(spec_pawn_dest_south(b));
            let s3 = opt_move_seq(spec_pawn_dest_west(b));
            let s4 = opt_move_seq(spec_pawn_dest_east(b));
            assert(pm == s1 + s2 + s3 + s4);
            if k < s1.len() {
                assert(m == s1[0]);
            } else if k < s1.len() + s2.len() {
                assert(m == s2[0]);
            } else if k < s1.len() + s2.len() + s3.len() {
                assert(m == s3[0]);
            } else {
                assert(m == s4[k - s1.len() - s2.len() - s3.len()]);
            }
        }
    } else {
        assert(b.mover_pocket() > 0);
        let wh = spec_wall_moves(b, WallOrientation::Horizontal);
        let wv = spec_wall_moves(b, WallOrientation::Vertical);
        assert(lm == pm + (wh + wv));
        if k - pm.len() < wh.len() {
            assert(wh.contains(m)) by {
                assert(wh[k - pm.len()] == m);
            }
            lemma_wall_moves_upto_member(b, WallOrientation::Horizontal, 64, m);
        } else {
            assert(wv.contains(m)) by {
                assert(wv[k - pm.len() - wh.len()] == m);
            }
            lemma_wall_moves_upto_member(b, WallOrientation::Vertical, 64, m);
        }
    }
    match m {
        Move::Pawn { to_square } => {
        },
        Move::Wall { to_square, orientation } => {
            match orientation {
                WallOrientation::Horizontal => {
                    lemma_insert_pointwise(b.horizontal_walls, to_square.idx as int);
                },
                WallOrientation::Vertical => {
                    lemma_insert_pointwise(b.vertical_walls, to_square.idx as int);
                },
            }
        },
    }
}

/// Whether two squares of the 9x9 grid are orthogonal neighbours.
pub open spec fn adjacent9(a: Square9x9, c: Square9x9) -> bool {
    (a.spec_file() == c.spec_file() && (a.spec_rank() - c.spec_rank() == 1 || c.spec_rank()
        - a.spec_rank() == 1)) || (a.spec_rank() == c.spec_rank() && (a.spec_file() - c.spec_file()
        == 1 || c.spec_file() - a.spec_file() == 1))
}

/// With no walls left in the mover's pocket, the legal moves are the
/// pawn moves and nothing else.
pub proof fn lemma_empty_pocket_pawn_moves_only(b: Board)
    requires
        b.mover_pocket() == 0,
    ensures
        spec_legal_moves(b) == spec_pawn_moves(b),
{
    assert(spec_legal_moves(b) =~= spec_pawn_moves(b));
}

/// Two boards that put the same pawn to move, with the same walls,
/// offer that pawn the same four destinations, as long as neither
/// resting pawn stands next to it (contact could engage the jump
/// rule on one board and not the other).
proof fn lemma_same_mover_same_dests(b1: Board, b2: Board)
    requires
        b1.wf(),
        b2.wf(),
        b1.mover() == b2.mover(),
        b1.horizontal_walls == b2.horizontal_walls,
        b1.vertical_walls == b2.vertical_walls,
        !adjacent9(b1.mover(), b1.sleeper()),
        !adjacent9(b2.mover(), b2.sleeper()),
    ensures
        spec_pawn_dest_north(b1) == spec_pawn_dest_north(b2),
        spec_pawn_dest_south(b1) == spec_pawn_dest_south(b2),
        spec_pawn_dest_west(b1) == spec_pawn_dest_west(b2),
        spec_pawn_dest_east(b1) == spec_pawn_dest_east(b2),
        spec_pawn_moves(b1) == spec_pawn_moves(b2),
{
    let p = b1.mover();
    assert(p.idx as int == 9 * (p.idx as int / 9) + (p.idx as int % 9));
    if p.spec_rank() < 8 {
        assert(adjacent9(p, up9(p)) && adjacent9(up9(p), p));
    }
    if p.spec_rank() > 0 {
        assert(adjacent9(p, down9(p)) && adjacent9(down9(p), p));
    }
    if p.spec_file() > 0 {
        assert(adjacent9(p, left9(p)) && adjacent9(left9(p), p));
    }
    if p.spec_file() < 8 {
        assert(adjacent9(p, right9(p)) && adjacent9(right9(p), p));
    }
}

/// Wall moves are a function of the walls alone: two boards with the
/// same wall sets offer the same wall placements.
proof fn lemma_same_walls_same_wall_moves(b1: Board, b2: Board, o: WallOrientation, n: int)
    requires
        b1.horizontal_walls == b2.horizontal_walls,
        b1.vertical_walls == b2.vertical_walls,
        0 <= n <= 64,
    ensures
        spec_wall_moves_upto(b1, o, n) == spec_wall_moves_upto(b2, o, n),
    decreases n,
{
    if n > 0 {
        lemma_same_walls_same_wall_moves(b1, b2, o, n - 1);
    }
}

/// Generation is a pure function of what the mover can see: two
/// boards that agree on the moving pawn, the resting pawn, both wall
/// sets and the mover's pocket offer exactly the same moves, whatever
/// their ply counters read.
pub proof fn lemma_moves_depend_on_view_only(b1: Board, b2: Board)
    requires
        b1.mover() == b2.mover(),
        b1.sleeper() == b2.sleeper(),
        b1.horizontal_walls == b2.horizontal_walls,
        b1.vertical_walls == b2.vertical_walls,
        b1.mover_pocket() == b2.mover_pocket(),
    ensures
        spec_legal_moves(b1) == spec_legal_moves(b2),
{
    lemma_same_walls_same_wall_moves(b1, b2, WallOrientation::Horizontal, 64);
    lemma_same_walls_same_wall_moves(b1, b2, WallOrientation::Vertical, 64);
    assert(spec_pawn_dest_north(b1) == spec_pawn_dest_north(b2));
    assert(spec_pawn_dest_south(b1) == spec_pawn_dest_south(b2));
    assert(spec_pawn_dest_west(b1) == spec_pawn_dest_west(b2));
    assert(spec_pawn_dest_east(b1) == spec_pawn_dest_east(b2));
}

/// A plain pawn step changes none of the moves open to the other
/// player: after the mover steps to `t`, the opponent has exactly the
/// move list it would have had if the turn had merely passed. This
/// holds whenever the stepping pawn neither starts nor lands on a
/// square orthogonally next to the opponent's pawn; in contact, the
/// jump rule can change the opponent's list.
pub proof fn lemma_pawn_step_keeps_reply_moves(b: Board, t: Square9x9)
    requires
        b.wf(),
        t.wf(),
        t != b.sleeper(),
        b.ply < 0xFFFF,
        !adjacent9(b.mover(), b.sleeper()),
        !adjacent9(t, b.sleeper()),
    ensures
        spec_legal_moves(spec_apply(b, Move::Pawn { to_square: t })) == spec_legal_moves(
            Board { ply: (b.ply + 1) as u16, ..b },
        ),
{
    let b1 = spec_apply(b, Move::Pawn { to_square: t });
    let b2 = Board { ply: (b.ply + 1) as u16, ..b };
    assert(b1.mover() == b.sleeper() && b2.mover() == b.sleeper());
    assert(b1.sleeper() == t && b2.sleeper() == b.mover());
    lemma_same_mover_same_dests(b1, b2);
    lemma_same_walls_same_wall_moves(b1, b2, WallOrientation::Horizontal, 64);
    lemma_same_walls_same_wall_moves(b1, b2, WallOrientation::Vertical, 64);
    assert(b1.mover_pocket() == b2.mover_pocket());
}

/// On a board with no walls at all, every crossing point is open, so
/// each orientation offers one wall move per point below the bound.
proof fn lemma_wall_count_empty(b: Board, o: WallOrientation, n: int)
    requires
        forall|i: int| !b.horizontal_walls.spec_has(i),
        forall|i: int| !b.vertical_walls.spec_has(i),
        0 <= n <= 64,
    ensures
        spec_wall_moves_upto(b, o, n).len() == n,
    decreases n,
{
    if n > 0 {
        lemma_wall_count_empty(b, o, n - 1);
    }
}

/// With exactly one horizontal wall at `w` and no vertical wall, the
/// horizontal placements below the bound lose the wall's own point
/// and its in-rank neighbours.
proof fn lemma_hwall_count_single(b: Board, w: int, n: int)
    requires
        forall|i: int| #![auto] b.horizontal_walls.spec_has(i) == (i == w),
        forall|i: int| !b.vertical_walls.spec_has(i),
        0 <= w < 64,
        0 <= n <= 64,
    ensures
        spec_wall_moves_upto(b, WallOrientation::Horizontal, n).len() == n - (if w < n {
            1int
        } else {
            0int
        }) - (if w % 8 > 0 && w - 1 < n {
            1int
        } else {
            0int
        }) - (if w % 8 < 7 && w + 1 < n {
            1int
        } else {
            0int
        }),
    decreases n,
{
    if n > 0 {
        lemma_hwall_count_single(b, w, n - 1);
    }
}

/// With exactly one vertical wall at `w` and no horizontal wall, the
/// vertical placements below the bound lose the wall's own point and
/// its in-file neighbours.
proof fn lemma_vwall_count_single(b: Board, w: int, n: int)
    requires
        forall|i: int| #![auto] b.vertical_walls.spec_has(i) == (i == w),
        forall|i: int| !b.horizontal_walls.spec_has(i),
        0 <= w < 64,
        0 <= n <= 64,
    ensures
        spec_wall_moves_upto(b, WallOrientation::Vertical, n).len() == n - (if w < n {
            1int
        } else {
            0int
        }) - (if w >= 8 && w - 8 < n {
            1int
        } else {
            0int
        }) - (if w < 56 && w + 8 < n {
            1int
        } else {
            0int
        }),
    decreases n,
{
    if n > 0 {
        lemma_vwall_count_single(b, w, n - 1);
    }
}

/// With exactly one wall of the other orientation at `w` and none of
/// this orientation, the placements of this orientation lose only the
/// crossing point itself.
proof fn lemma_wall_count_cross_single(b: Board, o: WallOrientation, w: int, n: int)
    requires
        match o {
            WallOrientation::Horizontal => (forall|i: int| !b.horizontal_walls.spec_has(i))
                && (forall|i: int| #![auto] b.vertical_walls.spec_has(i) == (i == w)),
            WallOrientation::Vertical => (forall|i: int| !b.vertical_walls.spec_has(i)) && (forall|
                i: int,
            |
                #![auto]
                b.horizontal_walls.spec_has(i) == (i == w)),
        },
        0 <= w < 64,
        0 <= n <= 64,
    ensures
        spec_wall_moves_upto(b, o, n).len() == n - (if w < n {
            1int
        } else {
            0int
        }),
    decreases n,
{
    if n > 0 {
        lemma_wall_count_cross_single(b, o, w, n - 1);
    }
}

/// The opening position offers exactly 131 moves: three pawn steps
/// and sixty-four wall placements of each orientation.
pub proof fn lemma_initial_move_count()
    ensures
        spec_legal_moves(spec_initial_board()).len() == 131,
{
    let b = spec_initial_board();
    lemma_empty_set_has_none();
    assert(spec_pawn_dest_north(b) == Some(Square9x9 { idx: 13 }));
    assert(spec_pawn_dest_south(b) == None::<Square9x9>);
    assert(spec_pawn_dest_west(b) == Some(Square9x9 { idx: 3 }));
    assert(spec_pawn_dest_east(b) == Some(Square9x9 { idx: 5 }));
    assert(spec_pawn_moves(b).len() == 3);
    lemma_wall_count_empty(b, WallOrientation::Horizontal, 64);
    lemma_wall_count_empty(b, WallOrientation::Vertical, 64);
}

/// Passing the turn in the opening position leaves the move count
/// unchanged: the position is symmetric across the two players, so
/// the second player also has exactly 131 moves.
pub proof fn lemma_initial_pass_symmetry()
    ensures
        spec_legal_moves(
            Board { ply: 1u16, ..spec_initial_board() },
        ).len() == spec_legal_moves(spec_initial_board()).len(),
{
    let b = Board { ply: 1u16, ..spec_initial_board() };
    lemma_empty_set_has_none();
    assert(b.mover() == Square9x9 { idx: 76 } && b.sleeper() == Square9x9 { idx: 4 });
    assert(spec_pawn_dest_north(b) == None::<Square9x9>);
    assert(spec_pawn_dest_south(b) == Some(Square9x9 { idx: 67 }));
    assert(spec_pawn_dest_west(b) == Some(Square9x9 { idx: 75 }));
    assert(spec_pawn_dest_east(b) == Some(Square9x9 { idx: 77 }));
    assert(spec_pawn_moves(b).len() == 3);
    lemma_wall_count_empty(b, WallOrientation::Horizontal, 64);
    lemma_wall_count_empty(b, WallOrientation::Vertical, 64);
    lemma_initial_move_count();
}

/// How many wall placements the opponent loses to the first wall of
/// the game: three when it sits on a board edge along its own length,
/// four in the interior.
pub open spec fn spec_first_wall_cost(w: Square8x8, o: WallOrientation) -> int {
    match o {
        WallOrientation::Horizontal => if w.spec_file() == 0 || w.spec_file() == 7 {
            3
        } else {
            4
        },
        WallOrientation::Vertical => if w.spec_rank() == 0 || w.spec_rank() == 7 {
            3
        } else {
            4
        },
    }
}

/// Whether the first wall of the game also takes a pawn step from the
/// second player: the four placements that cover the edge out of e9.
pub open spec fn spec_first_wall_blocks_pawn(w: Square8x8, o: WallOrientation) -> bool {
    w.idx == 59 || w.idx == 60
}

/// The opponent's reply count after the first wall of the game: an
/// edge placement removes three of the 131 opening moves, an interior
/// one four, and one more goes when the wall also blocks the second
/// player's forward step.
pub proof fn lemma_first_wall_reply_count(w: Square8x8, o: WallOrientation)
    requires
        w.wf(),
    ensures
        spec_legal_moves(
            spec_apply(spec_initial_board(), Move::Wall { to_square: w, orientation: o }),
        ).len() == 131 - spec_first_wall_cost(w, o) - (if spec_first_wall_blocks_pawn(w, o) {
            1int
        } else {
            0int
        }),
{
    let b = spec_apply(spec_initial_board(), Move::Wall { to_square: w, orientation: o });
    lemma_empty_set_has_none();
    lemma_insert_pointwise(SquareSet { bits: 0u64 }, w.idx as int);
    assert(b.mover() == Square9x9 { idx: 76 } && b.sleeper() == Square9x9 { idx: 4 });
    assert(b.mover_pocket() == 10);
    let ww = w.idx as int;
    assert(ww % 8 == w.spec_file() && ww / 8 == w.spec_rank());
    match o {
        WallOrientation::Horizontal => {
            assert(b.horizontal_walls == (SquareSet { bits: 0u64 }).spec_insert(ww));
            assert(b.vertical_walls == SquareSet { bits: 0u64 });
            assert forall|i: int| #![auto] b.horizontal_walls.spec_has(i) == (i == ww) by {
                assert((SquareSet { bits: 0u64 }).spec_insert(ww).spec_has(i) == ((SquareSet {
                    bits: 0u64,
                }).spec_has(i) || i == ww));
            }
            assert(forall|i: int| !b.vertical_walls.spec_has(i));
            lemma_hwall_count_single(b, ww, 64);
            lemma_wall_count_cross_single(b, WallOrientation::Vertical, ww, 64);
            assert(spec_pawn_dest_north(b) == None::<Square9x9>);
            assert(spec_pawn_dest_south(b) == if ww == 59 || ww == 60 {
                None::<Square9x9>
            } else {
                Some(Square9x9 { idx: 67 })
            });
            assert(spec_pawn_dest_west(b) == Some(Square9x9 { idx: 75 }));
            assert(spec_pawn_dest_east(b) == Some(Square9x9 { idx: 77 }));
        },
        WallOrientation::Vertical => {
            assert(b.vertical_walls == (SquareSet { bits: 0u64 }).spec_insert(ww));
            assert(b.horizontal_walls == SquareSet { bits: 0u64 });
            assert forall|i: int| #![auto] b.vertical_walls.spec_has(i) == (i == ww) by {
                assert((SquareSet { bits: 0u64 }).spec_insert(ww).spec_has(i) == ((SquareSet {
                    bits: 0u64,
                }).spec_has(i) || i == ww));
            }
            assert(forall|i: int| !b.horizontal_walls.spec_has(i));
            lemma_vwall_count_single(b, ww, 64);
            lemma_wall_count_cross_single(b, WallOrientation::Horizontal, ww, 64);
            assert(spec_pawn_dest_north(b) == None::<Square9x9>);
            assert(spec_pawn_dest_south(b) == Some(Square9x9 { idx: 67 }));
            assert(spec_pawn_dest_west(b) == if ww == 59 {
                None::<Square9x9>
            } else {
                Some(Square9x9 { idx: 75 })
            });
            assert(spec_pawn_dest_east(b) == if ww == 60 {
                None::<Square9x9>
            } else {
                Some(Square9x9 { idx: 77 })
            });
        },
    }
}

impl Default for Board {
    /// The starting position.
    fn default() -> (r: Self)
        ensures
            r == spec_initial_board(),
            r.wf(),
    {
        proof {
            lemma_empty_set_has_none();
        }
        Board {
            pawn0: Square9x9 { idx: 4 },
            pawn1: Square9x9 { idx: 76 },
            horizontal_walls: SquareSet { bits: 0 },
            vertical_walls: SquareSet { bits: 0 },
            pocket0: 10,
            pocket1: 10,
            ply: 0,
        }
    }
}

} // verus!
