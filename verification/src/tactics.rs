use vstd::prelude::*;
use crate::analyzer::GameAnalyzer;
use crate::attacks::{bishop_attacks, king_attacks, knight_attacks, pawn_attacks, queen_attacks, rook_attacks};
use crate::bits::{bb_contains, bb_has, count_below, lemma_count_two, sole_common, sole_common_square, bb_disjoint};
use crate::board::{
    attacker_on, attacks_square, bb_is, bishop_sees, king_step, knight_step, lemma_occupancy,
    occupancy, on_board, on_ray, sq_rank, has_color, spec_king_of, Position, clear_path, pawn_step, rook_sees, slides_to, strictly_between, spec_attacked_by, spec_piece_value, Board,
    Color, Move, Piece, Role,
};

verus! {

/// `t` holds an enemy piece that the piece landing on `m.to` attacks and
/// that is worth forking: the king, a piece of at least the attacker's
/// value, or a piece that its own side does not defend.
pub open spec fn fork_target(board: Seq<Option<Piece>>, m: Move, turn: Color, t: int) -> bool {
    let occ = occupancy(board);
    &&& attacks_square(m.role, turn, m.to as int, t, occ)
    &&& board[t] matches Some(p) && p.color == turn.spec_other() && (p.role == Role::King
        || spec_piece_value(p.role) >= spec_piece_value(m.role) || !spec_attacked_by(
        board,
        t,
        turn.spec_other(),
        occ,
    ))
}

/// The move forks: its piece attacks at least two worthwhile enemy targets.
#[verifier::opaque]
pub open spec fn spec_fork(board: Seq<Option<Piece>>, m: Move, turn: Color) -> bool {
    count_below(|t: int| fork_target(board, m, turn, t), 64) >= 2
}

/// A fork needs two targets: the verdict is true exactly when the moved
/// piece, on its destination, attacks two different squares holding enemy
/// pieces that are each the king, worth at least the mover, or undefended.
/// One such target alone is never a fork.
pub proof fn law_fork_needs_two_targets(board: Seq<Option<Piece>>, m: Move, turn: Color)
    ensures
        spec_fork(board, m, turn) <==> exists|a: int, b: int|
            0 <= a < b < 64 && #[trigger] fork_target(board, m, turn, a) && #[trigger] fork_target(board, m, turn, b),
{
    reveal(spec_fork);
    let pred = |t: int| fork_target(board, m, turn, t);
    lemma_count_two(pred, 64);
    if spec_fork(board, m, turn) {
        let (a, b) = choose|a: int, b: int| 0 <= a < b < 64 && #[trigger] pred(a) && #[trigger] pred(b);
        assert(fork_target(board, m, turn, a) && fork_target(board, m, turn, b));
    }
    if exists|a: int, b: int| 0 <= a < b < 64 && #[trigger] fork_target(board, m, turn, a) && #[trigger] fork_target(board, m, turn, b) {
        let (a, b) = choose|a: int, b: int| 0 <= a < b < 64 && #[trigger] fork_target(board, m, turn, a) && #[trigger] fork_target(board, m, turn, b);
        assert(pred(a) && pred(b));
    }
}

pub open spec fn is_slider(role: Role) -> bool {
    role == Role::Bishop || role == Role::Rook || role == Role::Queen
}

/// `p` is the one and only occupied square strictly between `a` and `b`.
pub open spec fn sole_blocker(a: int, b: int, occupied: u64, p: int) -> bool {
    &&& strictly_between(a, b, p)
    &&& bb_has(occupied, p)
    &&& forall|q: int| #[trigger] strictly_between(a, b, q) && bb_has(occupied, q) ==> q == p
}

pub proof fn lemma_sole_blocker(btw: u64, occ: u64, a: int, b: int, p: int)
    requires
        bb_is(btw, |c: int| strictly_between(a, b, c)),
    ensures
        sole_common(btw, occ, p) <==> sole_blocker(a, b, occ, p),
{
    if sole_common(btw, occ, p) {
        assert forall|q: int| #[trigger] strictly_between(a, b, q) && bb_has(occ, q) implies q == p by {
            assert(bb_has(btw, q));
        }
    }
    if sole_blocker(a, b, occ, p) {
        assert forall|d: int| #[trigger] bb_has(btw, d) && bb_has(occ, d) implies d == p by {
            assert(strictly_between(a, b, d));
        }
    }
}

/// Friendly slider on `s` pins the enemy piece on `p` to the more valuable
/// enemy piece (king, queen, or a rook behind a bishop's pin) on `t`, and the
/// move `m` takes part: it brings the slider, lands on the pinned piece, or
/// attacks it.
pub open spec fn pin_witness(board: Seq<Option<Piece>>, m: Move, turn: Color, s: int, t: int, p: int) -> bool {
    let occ = occupancy(board);
    &&& on_board(s)
    &&& on_board(t)
    &&& t != s
    &&& board[s] is Some
    &&& board[t] is Some
    &&& board[p] is Some
    &&& {
        let sp = board[s]->Some_0;
        let tp = board[t]->Some_0;
        let pp = board[p]->Some_0;
        &&& sp.color == turn
        &&& is_slider(sp.role)
        &&& tp.color == turn.spec_other()
        &&& (tp.role == Role::King || tp.role == Role::Queen || (sp.role == Role::Bishop && tp.role
            == Role::Rook))
        &&& slides_to(sp.role, s, t, 0u64)
        &&& sole_blocker(s, t, occ, p)
        &&& pp.color == turn.spec_other()
        &&& (tp.role == Role::King || spec_piece_value(tp.role) > spec_piece_value(pp.role))
        &&& (s == m.to || m.to == p || attacks_square(m.role, turn, m.to as int, p, occ))
    }
}

/// The move creates or exploits a pin.
#[verifier::opaque]
pub open spec fn spec_pin(board: Seq<Option<Piece>>, m: Move, turn: Color) -> bool {
    exists|s: int, t: int, p: int| pin_witness(board, m, turn, s, t, p)
}

/// The slider on `s` (which is where the move landed) attacks the enemy
/// piece on `f`, and behind it on the same line, with nothing in between,
/// stands an enemy piece on `b` that is worth no more than the front piece
/// (or the front piece is the king).
pub open spec fn skewer_witness(board: Seq<Option<Piece>>, m: Move, turn: Color, s: int, f: int, b: int) -> bool {
    let occ = occupancy(board);
    &&& on_board(s)
    &&& on_board(f)
    &&& on_board(b)
    &&& s == m.to
    &&& board[s] is Some
    &&& board[f] is Some
    &&& board[b] is Some
    &&& b != f
    &&& b != s
    &&& {
        let sp = board[s]->Some_0;
        let fp = board[f]->Some_0;
        let bp = board[b]->Some_0;
        &&& sp.color == turn
        &&& is_slider(sp.role)
        &&& slides_to(sp.role, s, f, occ)
        &&& fp.color == turn.spec_other()
        &&& bp.color == turn.spec_other()
        &&& on_ray(s, f, b)
        &&& strictly_between(s, b, f)
        &&& clear_path(f, b, occ)
        &&& (fp.role == Role::King || spec_piece_value(fp.role) >= spec_piece_value(bp.role))
    }
}

/// The moved piece skewers two enemy pieces.
#[verifier::opaque]
pub open spec fn spec_skewer(board: Seq<Option<Piece>>, m: Move, turn: Color) -> bool {
    exists|s: int, f: int, b: int| skewer_witness(board, m, turn, s, f, b)
}

/// Moving away from `m.from` opened the line of the friendly slider on `s`
/// (not the moved piece) onto the enemy piece on `t`: the slider's line
/// passes through the vacated square, and it attacks `t` now but did not
/// before the move.
#[verifier::opaque]
pub open spec fn discovered_line(before: Seq<Option<Piece>>, after: Seq<Option<Piece>>, m: Move, turn: Color, s: int, t: int) -> bool {
    &&& m.from is Some
    &&& on_board(s)
    &&& on_board(t)
    &&& s != m.to
    &&& after[s] is Some
    &&& {
        let sp = after[s]->Some_0;
        &&& sp.color == turn
        &&& is_slider(sp.role)
        &&& slides_to(sp.role, s, m.from->Some_0 as int, 0u64)
        &&& slides_to(sp.role, s, t, occupancy(after))
        &&& !slides_to(sp.role, s, t, occupancy(before))
        &&& has_color(after, t, turn.spec_other())
    }
}

/// The move uncovers an attack on some enemy piece.
#[verifier::opaque]
pub open spec fn spec_discovered_attack(before: Seq<Option<Piece>>, after: Seq<Option<Piece>>, m: Move, turn: Color) -> bool {
    exists|s: int, t: int| discovered_line(before, after, m, turn, s, t)
}

/// The move uncovers an attack on the enemy king.
#[verifier::opaque]
pub open spec fn spec_discovered_check(before: Seq<Option<Piece>>, after: Seq<Option<Piece>>, m: Move, turn: Color) -> bool {
    match spec_king_of(after, turn.spec_other()) {
        Some(k) => exists|s: int| discovered_line(before, after, m, turn, s, k),
        None => false,
    }
}

/// Mate by a knight against a king whose neighbouring squares are all
/// occupied, at least three of them by its own pieces.
#[verifier::opaque]
pub open spec fn spec_smothered_mate(pos: Position, m: Move, turn: Color) -> bool {
    let board = pos.board@;
    &&& pos.is_checkmate
    &&& m.role == Role::Knight
    &&& match spec_king_of(board, turn.spec_other()) {
        Some(k) => (forall|a: int| #[trigger] king_step(k, a) ==> board[a] is Some) && count_below(
            |a: int| king_step(k, a) && has_color(board, a, turn.spec_other()),
            64,
        ) >= 3,
        None => false,
    }
}

/// A rook or queen check, or any mate, delivered along the enemy king's own
/// back rank.
#[verifier::opaque]
pub open spec fn spec_back_rank(pos: Position, m: Move, turn: Color) -> bool {
    let board = pos.board@;
    let opp = turn.spec_other();
    match spec_king_of(board, opp) {
        Some(k) => {
            let rank = sq_rank(k);
            let is_back_rank = (opp == Color::Black && rank == 7) || (opp == Color::White && rank == 0);
            let on_back_rank = sq_rank(m.to as int) == rank;
            let is_rook_or_queen = m.role == Role::Rook || m.role == Role::Queen;
            is_back_rank && ((pos.is_checkmate && on_back_rank) || (pos.is_check && on_back_rank
                && is_rook_or_queen))
        },
        None => false,
    }
}

/// The move captures a piece that was undefended or worth more than the
/// capturing piece.
#[verifier::opaque]
pub open spec fn spec_hanging_piece(before: Seq<Option<Piece>>, m: Move, turn: Color) -> bool {
    &&& m.capture is Some
    &&& before[m.to as int] is Some
    &&& ({
        let captured = before[m.to as int]->Some_0;
        !spec_attacked_by(before, m.to as int, turn.spec_other(), occupancy(before))
            || spec_piece_value(captured.role) > spec_piece_value(m.role)
    })
}

/// The moved piece attacks the enemy piece on `t` (not a pawn or king), and
/// every square that piece could flee to is covered by the mover's side.
pub open spec fn trapped_target(board: Seq<Option<Piece>>, m: Move, turn: Color, t: int) -> bool {
    let occ = occupancy(board);
    let opp = turn.spec_other();
    &&& attacks_square(m.role, turn, m.to as int, t, occ)
    &&& board[t] is Some
    &&& ({
        let tp = board[t]->Some_0;
        &&& tp.color == opp
        &&& tp.role != Role::Pawn
        &&& tp.role != Role::King
        &&& forall|e: int| #[trigger] attacks_square(tp.role, opp, t, e, occ) && !has_color(board, e, opp)
            ==> spec_attacked_by(board, e, turn, occ)
    })
}

/// The moved piece attacks an enemy piece that has no safe square to go to.
#[verifier::opaque]
pub open spec fn spec_trapped_piece(board: Seq<Option<Piece>>, m: Move, turn: Color) -> bool {
    exists|t: int| 0 <= t < 64 && #[trigger] trapped_target(board, m, turn, t)
}

/// The kind of pawn motif a move shows.
#[derive(PartialEq, Eq, Structural, Clone, Copy, Debug)]
pub enum PawnMotif {
    Promotion,
    AdvancedPassedPawn,
}

/// A promotion, or a pawn reaching the opponent's last two ranks.
pub open spec fn spec_pawn_motif(m: Move, turn: Color) -> Option<PawnMotif> {
    if m.promotion is Some {
        Some(PawnMotif::Promotion)
    } else if m.role == Role::Pawn && ((turn == Color::White && sq_rank(m.to as int) >= 6) || (turn
        == Color::Black && sq_rank(m.to as int) <= 1)) {
        Some(PawnMotif::AdvancedPassedPawn)
    } else {
        None
    }
}

/// A discovered line onto the enemy king is a discovered check.
proof fn lemma_discovered_check_intro(before: Seq<Option<Piece>>, after: Seq<Option<Piece>>, m: Move, turn: Color, k: int, s: int)
    requires
        spec_king_of(after, turn.spec_other()) == Some(k),
        discovered_line(before, after, m, turn, s, k),
    ensures
        spec_discovered_check(before, after, m, turn),
{
    reveal(spec_discovered_check);
    assert(spec_king_of(after, turn.spec_other())->Some_0 == k);
}

impl GameAnalyzer {
    /// The material value of a piece kind: pawn 100, knight and bishop 300,
    /// rook 500, queen 900, king 10000.
    pub fn piece_value(role: Role) -> (r: i32)
        ensures
            r == spec_piece_value(role),
    {
        match role {
            Role::Pawn => 100,
            Role::Knight => 300,
            Role::Bishop => 300,
            Role::Rook => 500,
            Role::Queen => 900,
            Role::King => 10000,
        }
    }

    /// Whether some piece of `color` attacks `sq` on `board`.
    pub fn is_defended_by(board: &Board, sq: u8, color: Color) -> (r: bool)
        requires
            board.wf(),
            sq < 64,
        ensures
            r == spec_attacked_by(board@, sq as int, color, occupancy(board@)),
    {
        let occ = board.occupied();
        let rooks = rook_attacks(sq, occ);
        let bishops = bishop_attacks(sq, occ);
        let knights = knight_attacks(sq);
        let kings = king_attacks(sq);
        let pawns = pawn_attacks(color.other(), sq);
        let mut s: u8 = 0;
        while s < 64
            invariant
                board.wf(),
                sq < 64,
                s <= 64,
                occ == occupancy(board@),
                bb_is(rooks, |t: int| rook_sees(sq as int, t, occ)),
                bb_is(bishops, |t: int| bishop_sees(sq as int, t, occ)),
                bb_is(knights, |t: int| knight_step(sq as int, t)),
                bb_is(kings, |t: int| king_step(sq as int, t)),
                bb_is(pawns, |t: int| pawn_step(color.spec_other(), sq as int, t)),
                forall|t: int| 0 <= t < s ==> !attacker_on(board@, sq as int, color, occ, t),
            decreases 64 - s,
        {
            if let Some(p) = board.piece_at(s) {
                if p.color == color {
                    let hit = match p.role {
                        Role::Rook => bb_contains(rooks, s),
                        Role::Bishop => bb_contains(bishops, s),
                        Role::Queen => bb_contains(rooks, s) || bb_contains(bishops, s),
                        Role::Knight => bb_contains(knights, s),
                        Role::King => bb_contains(kings, s),
                        Role::Pawn => bb_contains(pawns, s),
                    };
                    if hit {
                        assert(attacker_on(board@, sq as int, color, occ, s as int));
                        return true;
                    }
                }
            }
            s = s + 1;
        }
        false
    }

    /// The squares a sliding piece (bishop, rook or queen) on `sq` attacks;
    /// no squares for the other roles.
    pub fn slider_attacks(role: Role, sq: u8, occupied: u64) -> (r: u64)
        requires
            sq < 64,
        ensures
            bb_is(r, |t: int| slides_to(role, sq as int, t, occupied)),
    {
        match role {
            Role::Bishop => bishop_attacks(sq, occupied),
            Role::Rook => rook_attacks(sq, occupied),
            Role::Queen => queen_attacks(sq, occupied),
            _ => {
                proof {
                    assert forall|t: int| 0 <= t < 64 implies (bb_has(0u64, t) <==> slides_to(role, sq as int, t, occupied)) by {
                        crate::bits::lemma_bb_empty(t as u64);
                    }
                }
                0u64
            },
        }
    }

    /// Whether the piece that `best_m` brings to its destination attacks two
    /// or more enemy pieces that are the king, worth at least as much as the
    /// attacker, or undefended.
    pub fn detect_fork(board_after: &Board, best_m: &Move, turn: Color) -> (r: bool)
        requires
            board_after.wf(),
            best_m.wf(),
        ensures
            r == spec_fork(board_after@, *best_m, turn),
    {
        reveal(spec_fork);
        let ghost pred = |t: int| fork_target(board_after@, *best_m, turn, t);
        let to_sq = best_m.to;
        let role = best_m.role;
        let occupied = board_after.occupied();
        let attacks = Self::piece_attacks(role, turn, to_sq, occupied);
        let opp = turn.other();
        let attacker_value = Self::piece_value(role);
        let mut valuable_targets: u32 = 0;
        let mut t: u8 = 0;
        while t < 64
            invariant
                board_after.wf(),
                best_m.wf(),
                to_sq == best_m.to,
                role == best_m.role,
                opp == turn.spec_other(),
                attacker_value == spec_piece_value(role),
                occupied == occupancy(board_after@),
                bb_is(attacks, |u: int| attacks_square(role, turn, to_sq as int, u, occupied)),
                pred == (|u: int| fork_target(board_after@, *best_m, turn, u)),
                t <= 64,
                valuable_targets <= t,
                valuable_targets == count_below(pred, t as int),
            decreases 64 - t,
        {
            let mut hit = false;
            if bb_contains(attacks, t) {
                if let Some(p) = board_after.piece_at(t) {
                    if p.color == opp {
                        let is_king = p.role == Role::King;
                        let is_higher_val = Self::piece_value(p.role) >= attacker_value;
                        let is_undefended = !Self::is_defended_by(board_after, t, opp);
                        hit = is_king || is_higher_val || is_undefended;
                    }
                }
            }
            assert(hit == pred(t as int));
            if hit {
                valuable_targets = valuable_targets + 1;
            }
            t = t + 1;
        }
        valuable_targets >= 2
    }

    /// Whether, after `best_m`, a friendly bishop, rook or queen pins an enemy
    /// piece against a more valuable one (the king, the queen, or a rook
    /// behind a bishop's pin), with the move bringing the slider, landing on
    /// the pinned piece or attacking it.
    pub fn detect_pin(board_after: &Board, best_m: &Move, turn: Color) -> (r: bool)
        requires
            board_after.wf(),
            best_m.wf(),
        ensures
            r == spec_pin(board_after@, *best_m, turn),
    {
        reveal(spec_pin);
        let occupied = board_after.occupied();
        let to_sq = best_m.to;
        let opp = turn.other();
        let move_attacks = Self::piece_attacks(best_m.role, turn, to_sq, occupied);
        let mut s: u8 = 0;
        while s < 64
            invariant
                board_after.wf(),
                best_m.wf(),
                to_sq == best_m.to,
                opp == turn.spec_other(),
                occupied == occupancy(board_after@),
                bb_is(move_attacks, |u: int| attacks_square(best_m.role, turn, to_sq as int, u, occupied)),
                s <= 64,
                forall|s1: int, t1: int, p1: int| 0 <= s1 < s ==> !#[trigger] pin_witness(board_after@, *best_m, turn, s1, t1, p1),
            decreases 64 - s,
        {
            if let Some(sp) = board_after.piece_at(s) {
                if sp.color == turn && (sp.role == Role::Bishop || sp.role == Role::Rook || sp.role == Role::Queen) {
                    let base_attacks = Self::slider_attacks(sp.role, s, 0u64);
                    let mut t: u8 = 0;
                    while t < 64
                        invariant
                            board_after.wf(),
                            best_m.wf(),
                            s < 64,
                            to_sq == best_m.to,
                            opp == turn.spec_other(),
                            occupied == occupancy(board_after@),
                            bb_is(move_attacks, |u: int| attacks_square(best_m.role, turn, to_sq as int, u, occupied)),
                            board_after@[s as int] == Some(sp),
                            sp.color == turn,
                            bb_is(base_attacks, |u: int| slides_to(sp.role, s as int, u, 0u64)),
                            t <= 64,
                            forall|t1: int, p1: int| 0 <= t1 < t ==> !#[trigger] pin_witness(board_after@, *best_m, turn, s as int, t1, p1),
                        decreases 64 - t,
                    {
                        if t != s {
                            if let Some(tp) = board_after.piece_at(t) {
                                let is_high_target = tp.role == Role::King || tp.role == Role::Queen
                                    || (sp.role == Role::Bishop && tp.role == Role::Rook);
                                if tp.color == opp && is_high_target && bb_contains(base_attacks, t) {
                                    let btw = crate::attacks::between(s, t);
                                    let sole = sole_common_square(btw, occupied);
                                    match sole {
                                        Some(p) => {
                                            proof { lemma_sole_blocker(btw, occupied, s as int, t as int, p as int); }
                                            if let Some(pp) = board_after.piece_at(p) {
                                                if pp.color == opp && (tp.role == Role::King
                                                    || Self::piece_value(tp.role) > Self::piece_value(pp.role)) {
                                                    if s == to_sq || to_sq == p || bb_contains(move_attacks, p) {
                                                        assert(pin_witness(board_after@, *best_m, turn, s as int, t as int, p as int));
                                                        proof { reveal(spec_pin); }
 return true;
                                                    }
                                                }
                                            }
                                            assert forall|p1: int| !pin_witness(board_after@, *best_m, turn, s as int, t as int, p1) by {
                                                if pin_witness(board_after@, *best_m, turn, s as int, t as int, p1) {
                                                    assert(p1 == p);
                                                }
                                            }
                                        },
                                        None => {
                                            assert forall|p1: int| !pin_witness(board_after@, *best_m, turn, s as int, t as int, p1) by {
                                                lemma_sole_blocker(btw, occupied, s as int, t as int, p1);
                                            }
                                        },
                                    }
                                }
                            }
                        }
                        t = t + 1;
                    }
                }
            }
            s = s + 1;
        }
        false
    }

    /// Whether the slider that `best_m` moved attacks an enemy piece with a
    /// second enemy piece of no greater value (or behind the king) directly
    /// behind it on the same line.
    pub fn detect_skewer(board_after: &Board, best_m: &Move, turn: Color) -> (r: bool)
        requires
            board_after.wf(),
            best_m.wf(),
        ensures
            r == spec_skewer(board_after@, *best_m, turn),
    {
        reveal(spec_skewer);
        let occupied = board_after.occupied();
        let s = best_m.to;
        let opp = turn.other();
        let sp = match board_after.piece_at(s) {
            Some(p) => p,
            None => {
                assert forall|s1: int, f1: int, b1: int| !skewer_witness(board_after@, *best_m, turn, s1, f1, b1) by {}
                return false;
            },
        };
        if !(sp.color == turn && (sp.role == Role::Bishop || sp.role == Role::Rook || sp.role == Role::Queen)) {
            assert forall|s1: int, f1: int, b1: int| !skewer_witness(board_after@, *best_m, turn, s1, f1, b1) by {}
            return false;
        }
        let direct = Self::slider_attacks(sp.role, s, occupied);
        let mut f: u8 = 0;
        while f < 64
            invariant
                board_after.wf(),
                best_m.wf(),
                s == best_m.to,
                opp == turn.spec_other(),
                occupied == occupancy(board_after@),
                board_after@[s as int] == Some(sp),
                sp.color == turn,
                is_slider(sp.role),
                bb_is(direct, |u: int| slides_to(sp.role, s as int, u, occupied)),
                f <= 64,
                forall|f1: int, b1: int| 0 <= f1 < f ==> !#[trigger] skewer_witness(board_after@, *best_m, turn, s as int, f1, b1),
            decreases 64 - f,
        {
            if bb_contains(direct, f) {
                if let Some(fp) = board_after.piece_at(f) {
                    if fp.color == opp {
                        let line = crate::attacks::ray(s, f);
                        let mut b: u8 = 0;
                        while b < 64
                            invariant
                                board_after.wf(),
                                best_m.wf(),
                                s == best_m.to,
                                f < 64,
                                opp == turn.spec_other(),
                                occupied == occupancy(board_after@),
                                board_after@[s as int] == Some(sp),
                                board_after@[f as int] == Some(fp),
                                sp.color == turn,
                                fp.color == opp,
                                is_slider(sp.role),
                                slides_to(sp.role, s as int, f as int, occupied),
                                bb_is(line, |u: int| on_ray(s as int, f as int, u)),
                                b <= 64,
                                forall|b1: int| 0 <= b1 < b ==> !#[trigger] skewer_witness(board_after@, *best_m, turn, s as int, f as int, b1),
                            decreases 64 - b,
                        {
                            if b != f && b != s && bb_contains(line, b) {
                                if let Some(bp) = board_after.piece_at(b) {
                                    if bp.color == opp {
                                        let btw_sb = crate::attacks::between(s, b);
                                        if bb_contains(btw_sb, f) {
                                            let btw_fb = crate::attacks::between(f, b);
                                            let clear = bb_disjoint(btw_fb, occupied);
                                            proof {
                                                assert(clear == clear_path(f as int, b as int, occupied)) by {
                                                    if clear {
                                                        assert forall|c: int| strictly_between(f as int, b as int, c) implies !bb_has(occupied, c) by {
                                                            assert(bb_has(btw_fb, c));
                                                        }
                                                    } else {
                                                        let c = choose|c: int| bb_has(btw_fb, c) && bb_has(occupied, c);
                                                        assert(strictly_between(f as int, b as int, c));
                                                    }
                                                }
                                            }
                                            if clear && (fp.role == Role::King
                                                || Self::piece_value(fp.role) >= Self::piece_value(bp.role)) {
                                                assert(skewer_witness(board_after@, *best_m, turn, s as int, f as int, b as int));
                                                proof { reveal(spec_skewer); }
 return true;
                                            }
                                        }
                                    }
                                }
                            }
                            b = b + 1;
                        }
                    }
                }
            }
            f = f + 1;
        }
        false
    }

    /// Whether the friendly slider on `s` gained, through the move, an attack
    /// on some enemy piece along a line through the vacated origin.
    fn slider_uncovers(pos_before: &Position, pos_after: &Position, best_m: &Move, turn: Color, s: u8, occupied_before: u64, occupied_after: u64) -> (r: (bool, Option<u8>))
        requires
            pos_before.wf(),
            pos_after.wf(),
            best_m.wf(),
            best_m.from is Some,
            s < 64,
            occupied_before == occupancy(pos_before.board@),
            occupied_after == occupancy(pos_after.board@),
        ensures
            r.0 == exists|t1: int| discovered_line(pos_before.board@, pos_after.board@, *best_m, turn, s as int, t1),
            r.1 matches Some(k) ==> k < 64 && discovered_line(pos_before.board@, pos_after.board@, *best_m, turn, s as int, k as int),
            r.0 ==> r.1 is Some,
    {
        let ghost before = pos_before.board@;
        let ghost after = pos_after.board@;
        reveal(discovered_line);
        let from_sq = best_m.from.unwrap();
        let opp = turn.other();
        if s == best_m.to {
            return (false, None);
        }
        let sp = match pos_after.board.piece_at(s) {
            Some(p) => p,
            None => return (false, None),
        };
        if !(sp.color == turn && (sp.role == Role::Bishop || sp.role == Role::Rook || sp.role == Role::Queen)) {
            return (false, None);
        }
        let base_attacks = Self::slider_attacks(sp.role, s, 0u64);
        if !bb_contains(base_attacks, from_sq) {
            return (false, None);
        }
        let attacks_before = Self::slider_attacks(sp.role, s, occupied_before);
        let attacks_after = Self::slider_attacks(sp.role, s, occupied_after);
        let mut found: Option<u8> = None;
        let mut t: u8 = 0;
        while t < 64
            invariant
                pos_before.wf(),
                pos_after.wf(),
                after == pos_after.board@,
                before == pos_before.board@,
                s < 64,
                after[s as int] == Some(sp),
                opp == turn.spec_other(),
                best_m.from == Some(from_sq),
                s != best_m.to,
                sp.color == turn,
                is_slider(sp.role),
                slides_to(sp.role, s as int, from_sq as int, 0u64),
                occupied_before == occupancy(before),
                occupied_after == occupancy(after),
                bb_is(attacks_before, |u: int| slides_to(sp.role, s as int, u, occupied_before)),
                bb_is(attacks_after, |u: int| slides_to(sp.role, s as int, u, occupied_after)),
                t <= 64,
                found matches Some(k) ==> k < 64 && discovered_line(before, after, *best_m, turn, s as int, k as int),
                (found is Some) == exists|t1: int| 0 <= t1 < t && #[trigger] discovered_line(before, after, *best_m, turn, s as int, t1),
            decreases 64 - t,
        {
            let enemy_there = match pos_after.board.piece_at(t) {
                Some(tp) => tp.color == opp,
                None => false,
            };
            let hit = bb_contains(attacks_after, t) && !bb_contains(attacks_before, t) && enemy_there;
            assert(hit == discovered_line(before, after, *best_m, turn, s as int, t as int)) by {
                reveal(discovered_line);
            }
            if hit && found.is_none() {
                found = Some(t);
            }
            t = t + 1;
        }
        (found.is_some(), found)
    }

    /// Whether moving the piece off its origin uncovers a friendly slider's
    /// attack on an enemy piece, and whether on the enemy king.
    pub fn detect_discovered_attack(pos_before: &Position, pos_after: &Position, best_m: &Move, turn: Color) -> (r: (bool, bool))
        requires
            pos_before.wf(),
            pos_after.wf(),
            best_m.wf(),
        ensures
            r.0 == spec_discovered_attack(pos_before.board@, pos_after.board@, *best_m, turn),
            r.1 == spec_discovered_check(pos_before.board@, pos_after.board@, *best_m, turn),
    {
        reveal(spec_discovered_attack);
        reveal(spec_discovered_check);
        let ghost before = pos_before.board@;
        let ghost after = pos_after.board@;
        if best_m.from.is_none() {
            assert forall|s1: int, t1: int| !discovered_line(before, after, *best_m, turn, s1, t1) by {
                reveal(discovered_line);
            }
            return (false, false);
        }
        let opp = turn.other();
        let opp_king = pos_after.board.king_of(opp);
        let occupied_before = pos_before.board.occupied();
        let occupied_after = pos_after.board.occupied();
        let mut disc_attack = false;
        let mut disc_check = false;
        let mut s: u8 = 0;
        while s < 64
            invariant
                pos_before.wf(),
                pos_after.wf(),
                best_m.wf(),
                best_m.from is Some,
                before == pos_before.board@,
                after == pos_after.board@,
                opp == turn.spec_other(),
                occupied_before == occupancy(before),
                occupied_after == occupancy(after),
                opp_king matches Some(k) ==> spec_king_of(after, opp) == Some(k as int),
                opp_king is None ==> spec_king_of(after, opp) is None,
                s <= 64,
                disc_attack == exists|s1: int, t1: int| 0 <= s1 < s && #[trigger] discovered_line(before, after, *best_m, turn, s1, t1),
                disc_check == (opp_king matches Some(k) && exists|s1: int| 0 <= s1 < s && #[trigger] discovered_line(before, after, *best_m, turn, s1, k as int)),
            decreases 64 - s,
        {
            let (any_here, _) = Self::slider_uncovers(pos_before, pos_after, best_m, turn, s, occupied_before, occupied_after);
            let king_here = match opp_king {
                Some(k) => {
                    proof { crate::board::lemma_king_of_square(after, opp); }
                    let kb = Self::slider_uncovers_square(pos_before, pos_after, best_m, turn, s, k, occupied_before, occupied_after);
                    kb
                },
                None => false,
            };
            disc_attack = disc_attack || any_here;
            disc_check = disc_check || king_here;
            s = s + 1;
        }
        proof {
            assert forall|s1: int, t1: int| #[trigger] discovered_line(before, after, *best_m, turn, s1, t1) implies 0 <= s1 < 64 by {
                reveal(discovered_line);
            }
            if let Some(k) = opp_king {
                if disc_check {
                    let s1 = choose|s1: int| 0 <= s1 < 64 && #[trigger] discovered_line(before, after, *best_m, turn, s1, k as int);
                    assert(discovered_line(before, after, *best_m, turn, s1, k as int));
                    assert(spec_king_of(after, turn.spec_other()) == Some(k as int));
                    lemma_discovered_check_intro(before, after, *best_m, turn, k as int, s1);
                }
                if spec_discovered_check(before, after, *best_m, turn) {
                    let s1 = choose|s1: int| discovered_line(before, after, *best_m, turn, s1, k as int);
                    assert(0 <= s1 < 64) by { reveal(discovered_line); }
                    assert(discovered_line(before, after, *best_m, turn, s1, k as int));
                }
            } else {
                assert(!spec_discovered_check(before, after, *best_m, turn));
            }
            assert(disc_check == spec_discovered_check(before, after, *best_m, turn));
        }
        (disc_attack, disc_check)
    }

    /// Whether the friendly slider on `s` gained, through the move, an attack
    /// on the enemy piece on `k`.
    fn slider_uncovers_square(pos_before: &Position, pos_after: &Position, best_m: &Move, turn: Color, s: u8, k: u8, occupied_before: u64, occupied_after: u64) -> (r: bool)
        requires
            pos_before.wf(),
            pos_after.wf(),
            best_m.wf(),
            best_m.from is Some,
            s < 64,
            k < 64,
            occupied_before == occupancy(pos_before.board@),
            occupied_after == occupancy(pos_after.board@),
        ensures
            r == discovered_line(pos_before.board@, pos_after.board@, *best_m, turn, s as int, k as int),
    {
        reveal(discovered_line);
        let from_sq = best_m.from.unwrap();
        if s == best_m.to {
            return false;
        }
        let sp = match pos_after.board.piece_at(s) {
            Some(p) => p,
            None => return false,
        };
        if !(sp.color == turn && (sp.role == Role::Bishop || sp.role == Role::Rook || sp.role == Role::Queen)) {
            return false;
        }
        let base_attacks = Self::slider_attacks(sp.role, s, 0u64);
        let attacks_before = Self::slider_attacks(sp.role, s, occupied_before);
        let attacks_after = Self::slider_attacks(sp.role, s, occupied_after);
        let enemy_there = match pos_after.board.piece_at(k) {
            Some(tp) => tp.color == turn.other(),
            None => false,
        };
        bb_contains(base_attacks, from_sq) && bb_contains(attacks_after, k) && !bb_contains(attacks_before, k) && enemy_there
    }

    /// Whether the position after the move has the king attacked twice.
    pub fn detect_double_check(pos_after: &Position) -> (r: bool)
        ensures
            r == (pos_after.checkers > 1),
    {
        pos_after.checkers > 1
    }

    /// Whether the move is a knight mate against a king boxed in by
    /// occupied squares, at least three of them its own pieces.
    pub fn detect_smothered_mate(pos_after: &Position, best_m: &Move, turn: Color) -> (r: bool)
        requires
            pos_after.wf(),
        ensures
            r == spec_smothered_mate(*pos_after, *best_m, turn),
    {
        reveal(spec_smothered_mate);
        if !pos_after.is_checkmate || best_m.role != Role::Knight {
            return false;
        }
        let opp = turn.other();
        let k = match pos_after.board.king_of(opp) {
            Some(sq) => sq,
            None => return false,
        };
        proof { crate::board::lemma_king_of_square(pos_after.board@, opp); }
        let ghost board = pos_after.board@;
        let ghost pred = |a: int| king_step(k as int, a) && has_color(board, a, opp);
        let adjacent = king_attacks(k);
        let mut all_filled = true;
        let mut own: u32 = 0;
        let mut a: u8 = 0;
        while a < 64
            invariant
                pos_after.wf(),
                board == pos_after.board@,
                k < 64,
                opp == turn.spec_other(),
                bb_is(adjacent, |u: int| king_step(k as int, u)),
                pred == (|u: int| king_step(k as int, u) && has_color(board, u, opp)),
                a <= 64,
                own <= a,
                own == count_below(pred, a as int),
                all_filled == (forall|u: int| 0 <= u < a && #[trigger] king_step(k as int, u) ==> board[u] is Some),
            decreases 64 - a,
        {
            let mut hit = false;
            if bb_contains(adjacent, a) {
                match pos_after.board.piece_at(a) {
                    Some(p) => {
                        if p.color == opp {
                            hit = true;
                        }
                    },
                    None => {
                        all_filled = false;
                    },
                }
            }
            assert(hit == pred(a as int));
            if hit {
                own = own + 1;
            }
            a = a + 1;
        }
        proof {
            assert forall|u: int| #[trigger] king_step(k as int, u) implies (0 <= u < 64) by {}
        }
        all_filled && own >= 3
    }

    /// Whether the move checks along the enemy king's back rank with a rook
    /// or queen, or mates on that rank.
    pub fn detect_back_rank(pos_after: &Position, best_m: &Move, turn: Color) -> (r: bool)
        requires
            pos_after.wf(),
            best_m.wf(),
        ensures
            r == spec_back_rank(*pos_after, *best_m, turn),
    {
        reveal(spec_back_rank);
        let opp = turn.other();
        let k = match pos_after.board.king_of(opp) {
            Some(sq) => sq,
            None => return false,
        };
        let rank = k / 8;
        let is_back_rank = (opp == Color::Black && rank == 7) || (opp == Color::White && rank == 0);
        if !is_back_rank {
            return false;
        }
        let is_rook_or_queen = best_m.role == Role::Rook || best_m.role == Role::Queen;
        let delivers_check = pos_after.is_check;
        let on_back_rank = best_m.to / 8 == rank;
        (pos_after.is_checkmate && on_back_rank) || (delivers_check && on_back_rank && is_rook_or_queen)
    }

    /// Whether the move captures a piece that was undefended or worth more
    /// than the capturer.
    pub fn detect_hanging_piece(pos_before: &Position, best_m: &Move, turn: Color) -> (r: bool)
        requires
            pos_before.wf(),
            best_m.wf(),
        ensures
            r == spec_hanging_piece(pos_before.board@, *best_m, turn),
    {
        reveal(spec_hanging_piece);
        if !best_m.is_capture() {
            return false;
        }
        let captured = match pos_before.board.piece_at(best_m.to) {
            Some(p) => p,
            None => return false,
        };
        let is_undefended = !Self::is_defended_by(&pos_before.board, best_m.to, turn.other());
        let is_gain = Self::piece_value(captured.role) > Self::piece_value(best_m.role);
        is_undefended || is_gain
    }

    /// Whether every square of `escapes` that `opp` does not occupy itself
    /// is attacked by `turn`: the piece has no safe square to go to.
    fn all_escapes_covered(board: &Board, escapes: u64, opp: Color, turn: Color) -> (r: bool)
        requires
            board.wf(),
        ensures
            r == (forall|e: int| 0 <= e < 64 && bb_has(escapes, e) && !has_color(board@, e, opp)
                ==> spec_attacked_by(board@, e, turn, occupancy(board@))),
    {
        let mut e: u8 = 0;
        while e < 64
            invariant
                board.wf(),
                e <= 64,
                forall|u: int| 0 <= u < e && bb_has(escapes, u) && !has_color(board@, u, opp)
                    ==> spec_attacked_by(board@, u, turn, occupancy(board@)),
            decreases 64 - e,
        {
            if bb_contains(escapes, e) {
                let own = match board.piece_at(e) {
                    Some(p) => p.color == opp,
                    None => false,
                };
                if !own && !Self::is_defended_by(board, e, turn) {
                    return false;
                }
            }
            e = e + 1;
        }
        true
    }

    /// Whether the moved piece attacks an enemy piece (other than a pawn or
    /// the king) all of whose flight squares are covered.
    pub fn detect_trapped_piece(pos_after: &Position, best_m: &Move, turn: Color) -> (r: bool)
        requires
            pos_after.wf(),
            best_m.wf(),
        ensures
            r == spec_trapped_piece(pos_after.board@, *best_m, turn),
    {
        reveal(spec_trapped_piece);
        let ghost board = pos_after.board@;
        let opp = turn.other();
        let occupied = pos_after.board.occupied();
        let attacked = Self::piece_attacks(best_m.role, turn, best_m.to, occupied);
        let mut t: u8 = 0;
        while t < 64
            invariant
                pos_after.wf(),
                best_m.wf(),
                board == pos_after.board@,
                opp == turn.spec_other(),
                occupied == occupancy(board),
                bb_is(attacked, |u: int| attacks_square(best_m.role, turn, best_m.to as int, u, occupied)),
                t <= 64,
                forall|u: int| 0 <= u < t ==> !#[trigger] trapped_target(board, *best_m, turn, u),
            decreases 64 - t,
        {
            if bb_contains(attacked, t) {
                if let Some(tp) = pos_after.board.piece_at(t) {
                    if tp.color == opp && tp.role != Role::Pawn && tp.role != Role::King {
                        let target_attacks = Self::piece_attacks(tp.role, opp, t, occupied);
                        let none_safe = Self::all_escapes_covered(&pos_after.board, target_attacks, opp, turn);
                        proof {
                            assert(none_safe == (forall|e: int| #[trigger] attacks_square(tp.role, opp, t as int, e, occupied)
                                && !has_color(board, e, opp) ==> spec_attacked_by(board, e, turn, occupied))) by {
                                if none_safe {
                                    assert forall|e: int| #[trigger] attacks_square(tp.role, opp, t as int, e, occupied)
                                        && !has_color(board, e, opp) implies spec_attacked_by(board, e, turn, occupied) by {
                                        assert(bb_has(target_attacks, e));
                                    }
                                } else {
                                    let e = choose|e: int| 0 <= e < 64 && bb_has(target_attacks, e) && !has_color(board, e, opp)
                                        && !spec_attacked_by(board, e, turn, occupied);
                                    assert(attacks_square(tp.role, opp, t as int, e, occupied));
                                }
                            }
                        }
                        if none_safe {
                            assert(trapped_target(board, *best_m, turn, t as int));
                            proof { reveal(spec_trapped_piece); }
 return true;
                        }
                    }
                }
            }
            t = t + 1;
        }
        false
    }

    /// The pawn motif of a move: promotion, or a pawn reaching the
    /// opponent's last two ranks.
    pub fn detect_pawn_motif(best_m: &Move, turn: Color) -> (r: Option<PawnMotif>)
        requires
            best_m.wf(),
        ensures
            r == spec_pawn_motif(*best_m, turn),
    {
        if best_m.promotion.is_some() {
            return Some(PawnMotif::Promotion);
        }
        if best_m.role == Role::Pawn {
            let rank = best_m.to / 8;
            if (turn == Color::White && rank >= 6) || (turn == Color::Black && rank <= 1) {
                return Some(PawnMotif::AdvancedPassedPawn);
            }
        }
        None
    }

    /// The squares a piece of `role` and `color` on `sq` attacks.
    pub fn piece_attacks(role: Role, color: Color, sq: u8, occupied: u64) -> (r: u64)
        requires
            sq < 64,
        ensures
            bb_is(r, |t: int| attacks_square(role, color, sq as int, t, occupied)),
    {
        match role {
            Role::Pawn => pawn_attacks(color, sq),
            Role::Knight => knight_attacks(sq),
            Role::Bishop => bishop_attacks(sq, occupied),
            Role::Rook => rook_attacks(sq, occupied),
            Role::Queen => queen_attacks(sq, occupied),
            Role::King => king_attacks(sq),
        }
    }
}

} // verus!
