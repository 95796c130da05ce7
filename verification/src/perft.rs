//! Exhaustive counting of the move tree ("perft"): the correctness
//! oracle for the move generator, as a plain recursion and as a
//! memoized variant whose cache entries are proved to hold exact
//! counts.

use vstd::prelude::*;
use std::collections::HashMap;
use crate::board::Board;
use crate::board::lemma_legal_move_allowed;
use crate::board::spec_apply;
use crate::board::spec_legal_moves;
use crate::types::Move;

verus! {

/// The number of move sequences of length `depth` playable from `b`:
/// one (the empty continuation) at depth zero, else the sum over
/// every legal move of the count of its successor one level down.
pub open spec fn spec_perft(b: Board, depth: nat) -> nat
    decreases depth, 0int,
{
    if depth == 0 {
        1
    } else {
        spec_perft_sum(b, spec_legal_moves(b), (depth - 1) as nat)
    }
}

/// The sum, over the listed moves, of the perft counts of their
/// successor boards at the given depth.
pub open spec fn spec_perft_sum(b: Board, moves: Seq<Move>, depth: nat) -> nat
    decreases depth, moves.len() + 1,
{
    if moves.len() == 0 {
        0
    } else {
        spec_perft(spec_apply(b, moves[0]), depth) + spec_perft_sum(b, moves.drop_first(), depth)
    }
}

/// Appending one move to a sum adds exactly that move's count.
proof fn lemma_perft_sum_push(b: Board, moves: Seq<Move>, m: Move, depth: nat)
    ensures
        spec_perft_sum(b, moves.push(m), depth) == spec_perft_sum(b, moves, depth) + spec_perft(
            spec_apply(b, m),
            depth,
        ),
    decreases moves.len(),
{
    assert(moves.push(m).len() == moves.len() + 1);
    assert(spec_perft_sum(b, moves.push(m), depth) == spec_perft(
        spec_apply(b, moves.push(m)[0]),
        depth,
    ) + spec_perft_sum(b, moves.push(m).drop_first(), depth));
    if moves.len() == 0 {
        assert(moves.push(m)[0] == m);
        assert(moves.push(m).drop_first() =~= Seq::<Move>::empty());
        assert(spec_perft_sum(b, Seq::<Move>::empty(), depth) == 0);
    } else {
        assert(moves.push(m)[0] == moves[0]);
        assert(moves.push(m).drop_first() =~= moves.drop_first().push(m));
        lemma_perft_sum_push(b, moves.drop_first(), m, depth);
        assert(spec_perft_sum(b, moves, depth) == spec_perft(spec_apply(b, moves[0]), depth)
            + spec_perft_sum(b, moves.drop_first(), depth));
    }
}

/// The sum over a longer prefix grows by the newly included move.
proof fn lemma_perft_sum_take_succ(b: Board, moves: Seq<Move>, j: int, depth: nat)
    requires
        0 <= j < moves.len(),
    ensures
        spec_perft_sum(b, moves.take(j + 1), depth) == spec_perft_sum(b, moves.take(j), depth)
            + spec_perft(spec_apply(b, moves[j]), depth),
{
    assert(moves.take(j + 1) =~= moves.take(j).push(moves[j]));
    lemma_perft_sum_push(b, moves.take(j), moves[j], depth);
}

/// A sum over a concatenation splits into the two sums.
proof fn lemma_perft_sum_append(b: Board, s1: Seq<Move>, s2: Seq<Move>, depth: nat)
    ensures
        spec_perft_sum(b, s1 + s2, depth) == spec_perft_sum(b, s1, depth) + spec_perft_sum(
            b,
            s2,
            depth,
        ),
    decreases s1.len(),
{
    if s1.len() == 0 {
        assert(s1 + s2 =~= s2);
    } else {
        assert((s1 + s2)[0] == s1[0]);
        assert((s1 + s2).drop_first() =~= s1.drop_first() + s2);
        lemma_perft_sum_append(b, s1.drop_first(), s2, depth);
    }
}

/// A prefix of the sum never exceeds the whole sum.
proof fn lemma_perft_sum_take_le(b: Board, moves: Seq<Move>, j: int, depth: nat)
    requires
        0 <= j <= moves.len(),
    ensures
        spec_perft_sum(b, moves.take(j), depth) <= spec_perft_sum(b, moves, depth),
{
    assert(moves.take(j) + moves.skip(j) =~= moves);
    lemma_perft_sum_append(b, moves.take(j), moves.skip(j), depth);
}

/// At depth zero every move counts one continuation, so the sum is
/// the number of moves.
proof fn lemma_perft_sum_zero(b: Board, moves: Seq<Move>)
    ensures
        spec_perft_sum(b, moves, 0) == moves.len(),
    decreases moves.len(),
{
    if moves.len() > 0 {
        lemma_perft_sum_zero(b, moves.drop_first());
        assert(spec_perft(spec_apply(b, moves[0]), 0) == 1);
    }
}

/// At depth one, perft is exactly the number of immediate legal
/// moves.
pub proof fn lemma_perft_depth_one(b: Board)
    ensures
        spec_perft(b, 1) == spec_legal_moves(b).len(),
{
    lemma_perft_sum_zero(b, spec_legal_moves(b));
}

/// Counts the move sequences of length `depth` playable from
/// `board`, by generating and recursing; the result is exactly
/// `spec_perft`.
pub fn perft(board: Board, depth: u8) -> (r: u64)
    requires
        board.wf(),
        spec_perft(board, depth as nat) <= u64::MAX,
        board.ply + depth <= u16::MAX,
    ensures
        r == spec_perft(board, depth as nat),
    decreases depth,
{
    if depth == 0 {
        return 1;
    }
    let moves = board.generate_moves();
    if depth == 1 {
        proof {
            lemma_perft_depth_one(board);
        }
        return moves.len() as u64;
    }
    let ghost d = (depth - 1) as nat;
    let mut count: u64 = 0;
    let mut j: usize = 0;
    while j < moves.len()
        invariant
            board.wf(),
            2 <= depth <= u8::MAX,
            board.ply + depth <= u16::MAX,
            d == (depth - 1) as nat,
            moves@ == spec_legal_moves(board),
            spec_perft(board, depth as nat) <= u64::MAX,
            spec_perft(board, depth as nat) == spec_perft_sum(board, moves@, d),
            0 <= j <= moves@.len(),
            count == spec_perft_sum(board, moves@.take(j as int), d),
        decreases moves@.len() - j,
    {
        let mv = moves[j];
        proof {
            assert(spec_legal_moves(board).contains(mv));
            lemma_legal_move_allowed(board, mv);
            lemma_perft_sum_take_succ(board, moves@, j as int, d);
            lemma_perft_sum_take_le(board, moves@, j as int + 1, d);
        }
        let mut succ = board;
        succ.make_move(mv);
        let sub = perft(succ, depth - 1);
        count = count + sub;
        j = j + 1;
    }
    proof {
        assert(moves@.take(moves@.len() as int) =~= moves@);
    }
    count
}

/// One stored result: the exact count for a board and depth.
#[derive(Clone, Copy)]
struct CacheEntry {
    board: Board,
    depth: u8,
    count: u64,
}

/// A memoization cache for `perft_cached`. Results are stored in
/// buckets under a key mixed from the whole board state and the
/// depth, and an entry is used only for exactly the same board value
/// — wall counts and ply included — at the same depth; every stored
/// count is proved equal to `spec_perft` of its own board and depth.
pub struct PerftCache {
    buckets: HashMap<u64, Vec<CacheEntry>>,
}

impl PerftCache {
    /// Every entry of every bucket holds the exact count for its own
    /// board and depth.
    pub closed spec fn wf(self) -> bool {
        forall|k: u64, j: int|
            #![trigger self.buckets@[k]@[j]]
            self.buckets@.contains_key(k) && 0 <= j < self.buckets@[k]@.len() ==> {
                let e = self.buckets@[k]@[j];
                e.count == spec_perft(e.board, e.depth as nat)
            }
    }

    /// An empty cache.
    pub fn new() -> (r: Self)
        ensures
            r.wf(),
    {
        PerftCache { buckets: HashMap::new() }
    }

    /// The bucket key of a position: a mix of the whole board state
    /// and the depth. Collisions are harmless; entries are compared
    /// exactly before use.
    fn cache_key(board: &Board, depth: u8) -> u64
        requires
            board.wf(),
    {
        let base: u64 = ((((board.pawn0.index() as u64 + 81 * (board.pawn1.index() as u64)) * 11
            + board.pocket0 as u64) * 11 + board.pocket1 as u64) * 65536 + board.ply as u64) * 256
            + depth as u64;
        base ^ board.horizontal_walls.bits ^ (board.vertical_walls.bits << 1u64)
    }

    /// Looks a position up; a hit is proved to be the exact count.
    fn lookup(&self, board: &Board, depth: u8) -> (r: Option<u64>)
        requires
            self.wf(),
            board.wf(),
        ensures
            match r {
                Some(c) => c == spec_perft(*board, depth as nat),
                None => true,
            },
    {
        let k = Self::cache_key(board, depth);
        match self.buckets.get(&k) {
            None => None,
            Some(bucket) => {
                let mut j: usize = 0;
                while j < bucket.len()
                    invariant
                        self.wf(),
                        self.buckets@.contains_key(k),
                        bucket == self.buckets@[k],
                        0 <= j <= bucket@.len(),
                    decreases bucket@.len() - j,
                {
                    let e = bucket[j];
                    if e.depth == depth && e.board == *board {
                        return Some(e.count);
                    }
                    j = j + 1;
                }
                None
            },
        }
    }

    /// Records a result; the count handed in must be exact, and the
    /// cache stays well formed.
    fn store(&mut self, board: Board, depth: u8, count: u64)
        requires
            old(self).wf(),
            board.wf(),
            count == spec_perft(board, depth as nat),
        ensures
            final(self).wf(),
    {
        let k = Self::cache_key(&board, depth);
        let entry = CacheEntry { board, depth, count };
        let ghost pre = self.buckets@;
        match self.buckets.remove(&k) {
            Some(mut bucket) => {
                let ghost prebucket = bucket@;
                bucket.push(entry);
                self.buckets.insert(k, bucket);
                proof {
                    assert forall|kk: u64, j: int|
                        #![trigger self.buckets@[kk]@[j]]
                        self.buckets@.contains_key(kk) && 0 <= j < self.buckets@[kk]@.len() implies {
                        let e = self.buckets@[kk]@[j];
                        e.count == spec_perft(e.board, e.depth as nat)
                    } by {
                        if kk == k {
                            assert(self.buckets@[kk]@ == prebucket.push(entry));
                            if j < prebucket.len() {
                                assert(pre[k]@[j] == prebucket[j]);
                            }
                        } else {
                            assert(self.buckets@[kk] == pre[kk]);
                            assert(pre.contains_key(kk));
                        }
                    }
                }
            },
            None => {
                let mut bucket: Vec<CacheEntry> = Vec::new();
                bucket.push(entry);
                self.buckets.insert(k, bucket);
                proof {
                    assert forall|kk: u64, j: int|
                        #![trigger self.buckets@[kk]@[j]]
                        self.buckets@.contains_key(kk) && 0 <= j < self.buckets@[kk]@.len() implies {
                        let e = self.buckets@[kk]@[j];
                        e.count == spec_perft(e.board, e.depth as nat)
                    } by {
                        if kk == k {
                            assert(self.buckets@[kk]@ =~= seq![entry]);
                        } else {
                            assert(self.buckets@[kk] == pre[kk]);
                            assert(pre.contains_key(kk));
                        }
                    }
                }
            },
        }
    }
}

/// Counts the move sequences of length `depth` playable from
/// `board`, consulting and filling a memoization cache for depths
/// beyond one; the result is exactly `spec_perft` all the same.
pub fn perft_cached(board: Board, depth: u8, cache: &mut PerftCache) -> (r: u64)
    requires
        board.wf(),
        old(cache).wf(),
        spec_perft(board, depth as nat) <= u64::MAX,
        board.ply + depth <= u16::MAX,
    ensures
        r == spec_perft(board, depth as nat),
        final(cache).wf(),
    decreases depth,
{
    if depth == 0 {
        return 1;
    }
    let moves = board.generate_moves();
    if depth == 1 {
        proof {
            lemma_perft_depth_one(board);
        }
        return moves.len() as u64;
    }
    if let Some(c) = cache.lookup(&board, depth) {
        return c;
    }
    let ghost d = (depth - 1) as nat;
    let mut count: u64 = 0;
    let mut j: usize = 0;
    while j < moves.len()
        invariant
            board.wf(),
            cache.wf(),
            2 <= depth <= u8::MAX,
            board.ply + depth <= u16::MAX,
            d == (depth - 1) as nat,
            moves@ == spec_legal_moves(board),
            spec_perft(board, depth as nat) <= u64::MAX,
            spec_perft(board, depth as nat) == spec_perft_sum(board, moves@, d),
            0 <= j <= moves@.len(),
            count == spec_perft_sum(board, moves@.take(j as int), d),
        decreases moves@.len() - j,
    {
        let mv = moves[j];
        proof {
            assert(spec_legal_moves(board).contains(mv));
            lemma_legal_move_allowed(board, mv);
            lemma_perft_sum_take_succ(board, moves@, j as int, d);
            lemma_perft_sum_take_le(board, moves@, j as int + 1, d);
        }
        let mut succ = board;
        succ.make_move(mv);
        let sub = perft_cached(succ, depth - 1, cache);
        count = count + sub;
        j = j + 1;
    }
    proof {
        assert(moves@.take(moves@.len() as int) =~= moves@);
    }
    cache.store(board, depth, count);
    count
}

} // verus!
