use vstd::prelude::*;
use crate::bits::{bb_has, bits_below, count_below, lemma_bits_below};

verus! {

/// A side.
#[derive(PartialEq, Eq, Structural, Clone, Copy, Debug)]
pub enum Color {
    White,
    Black,
}

/// A kind of chess piece.
#[derive(PartialEq, Eq, Structural, Clone, Copy, Debug)]
pub enum Role {
    Pawn,
    Knight,
    Bishop,
    Rook,
    Queen,
    King,
}

/// A piece of some side.
#[derive(PartialEq, Eq, Structural, Clone, Copy, Debug)]
pub struct Piece {
    pub color: Color,
    pub role: Role,
}

/// The placement of pieces on the 64 squares, indexed 0 = a1, 1 = b1, ...,
/// 63 = h8.
#[derive(Clone)]
pub struct Board {
    pub squares: Vec<Option<Piece>>,
}

/// A move as the tactical detectors see it: the moving piece's role, its
/// origin (none for a drop), its destination, the role it captures (if any)
/// and the role it promotes to (if any).
#[derive(PartialEq, Eq, Structural, Clone, Copy, Debug)]
pub struct Move {
    pub role: Role,
    pub from: Option<u8>,
    pub to: u8,
    pub capture: Option<Role>,
    pub promotion: Option<Role>,
}

impl Move {
    /// Its squares are on the board.
    pub open spec fn wf(&self) -> bool {
        self.to < 64 && (self.from matches Some(f) ==> f < 64)
    }

    pub open spec fn spec_is_capture(&self) -> bool {
        self.capture is Some
    }

    /// Whether the move captures.
    #[verifier::when_used_as_spec(spec_is_capture)]
    pub fn is_capture(&self) -> (r: bool)
        ensures
            r == self.spec_is_capture(),
    {
        self.capture.is_some()
    }
}

/// A position as the tactical detectors see it: its FEN, the board, the
/// side to move, and what move generation says of it.
#[derive(Clone)]
pub struct Position {
    pub fen: String,
    pub board: Board,
    pub turn: Color,
    pub checkers: u32,
    pub is_check: bool,
    pub is_checkmate: bool,
    pub is_stalemate: bool,
    pub is_insufficient_material: bool,
    pub legal_move_count: u32,
}

impl Position {
    pub open spec fn wf(&self) -> bool {
        self.board.wf()
    }
}

impl Color {
    pub open spec fn spec_other(self) -> Color {
        match self {
            Color::White => Color::Black,
            Color::Black => Color::White,
        }
    }

    /// The opposite side.
    #[verifier::when_used_as_spec(spec_other)]
    pub fn other(self) -> (r: Color)
        ensures
            r == self.spec_other(),
    {
        match self {
            Color::White => Color::Black,
            Color::Black => Color::White,
        }
    }
}

impl View for Board {
    type V = Seq<Option<Piece>>;

    open spec fn view(&self) -> Seq<Option<Piece>> {
        self.squares@
    }
}

impl Board {
    /// A board has exactly 64 squares.
    pub open spec fn wf(&self) -> bool {
        self.squares@.len() == 64
    }

    /// The piece on a square.
    pub fn piece_at(&self, sq: u8) -> (r: Option<Piece>)
        requires
            self.wf(),
            sq < 64,
        ensures
            r == self@[sq as int],
    {
        self.squares[sq as usize]
    }
}

// ---------------------------------------------------------------------------
// Geometry of the board.

pub open spec fn on_board(s: int) -> bool {
    0 <= s < 64
}

pub open spec fn sq_file(s: int) -> int {
    s % 8
}

pub open spec fn sq_rank(s: int) -> int {
    s / 8
}

pub open spec fn abs_diff(a: int, b: int) -> int {
    if a >= b {
        a - b
    } else {
        b - a
    }
}

pub open spec fn file_dist(a: int, b: int) -> int {
    abs_diff(sq_file(a), sq_file(b))
}

pub open spec fn rank_dist(a: int, b: int) -> int {
    abs_diff(sq_rank(a), sq_rank(b))
}

/// `b` is a knight's jump away from `a`.
pub open spec fn knight_step(a: int, b: int) -> bool {
    on_board(b) && ((file_dist(a, b) == 1 && rank_dist(a, b) == 2) || (file_dist(a, b) == 2
        && rank_dist(a, b) == 1))
}

/// `b` is one king step away from `a`.
pub open spec fn king_step(a: int, b: int) -> bool {
    on_board(b) && a != b && file_dist(a, b) <= 1 && rank_dist(a, b) <= 1
}

/// A pawn of `color` on `a` captures on `b`: one file aside, one rank forward.
pub open spec fn pawn_step(color: Color, a: int, b: int) -> bool {
    on_board(b) && file_dist(a, b) == 1 && sq_rank(b) == sq_rank(a) + (if color == Color::White {
        1int
    } else {
        -1int
    })
}

/// `a` and `b` are distinct squares on one rank or one file.
pub open spec fn rook_aligned(a: int, b: int) -> bool {
    on_board(b) && a != b && (sq_file(a) == sq_file(b) || sq_rank(a) == sq_rank(b))
}

/// `a` and `b` are distinct squares on one diagonal.
pub open spec fn bishop_aligned(a: int, b: int) -> bool {
    on_board(b) && a != b && file_dist(a, b) == rank_dist(a, b)
}

pub open spec fn aligned(a: int, b: int) -> bool {
    rook_aligned(a, b) || bishop_aligned(a, b)
}

/// `c` lies on the straight line through `a` and `b`.
pub open spec fn collinear(a: int, b: int, c: int) -> bool {
    (sq_file(c) - sq_file(a)) * (sq_rank(b) - sq_rank(a)) == (sq_rank(c) - sq_rank(a)) * (sq_file(b)
        - sq_file(a))
}

pub open spec fn min_int(a: int, b: int) -> int {
    if a <= b {
        a
    } else {
        b
    }
}

pub open spec fn max_int(a: int, b: int) -> int {
    if a >= b {
        a
    } else {
        b
    }
}

/// `c` lies strictly between the aligned squares `a` and `b`.
pub open spec fn strictly_between(a: int, b: int, c: int) -> bool {
    &&& on_board(c)
    &&& aligned(a, b)
    &&& c != a
    &&& c != b
    &&& min_int(sq_file(a), sq_file(b)) <= sq_file(c) <= max_int(sq_file(a), sq_file(b))
    &&& min_int(sq_rank(a), sq_rank(b)) <= sq_rank(c) <= max_int(sq_rank(a), sq_rank(b))
    &&& collinear(a, b, c)
}

/// `c` lies on the whole rank, file or diagonal through the aligned squares
/// `a` and `b` (both included).
pub open spec fn on_ray(a: int, b: int, c: int) -> bool {
    on_board(c) && aligned(a, b) && collinear(a, b, c)
}

/// No square strictly between `a` and `b` is occupied.
pub open spec fn clear_path(a: int, b: int, occupied: u64) -> bool {
    forall|c: int| strictly_between(a, b, c) ==> !bb_has(occupied, c)
}

/// A rook on `a` attacks `b` given the occupied squares.
pub open spec fn rook_sees(a: int, b: int, occupied: u64) -> bool {
    rook_aligned(a, b) && clear_path(a, b, occupied)
}

/// A bishop on `a` attacks `b` given the occupied squares.
pub open spec fn bishop_sees(a: int, b: int, occupied: u64) -> bool {
    bishop_aligned(a, b) && clear_path(a, b, occupied)
}

/// A piece of `role` and `color` on `a` attacks `b` given the occupied squares.
pub open spec fn attacks_square(role: Role, color: Color, a: int, b: int, occupied: u64) -> bool {
    match role {
        Role::Pawn => pawn_step(color, a, b),
        Role::Knight => knight_step(a, b),
        Role::Bishop => bishop_sees(a, b, occupied),
        Role::Rook => rook_sees(a, b, occupied),
        Role::Queen => rook_sees(a, b, occupied) || bishop_sees(a, b, occupied),
        Role::King => king_step(a, b),
    }
}

/// Attacks of a sliding piece of `role` (bishop, rook, queen); other roles
/// slide nowhere.
pub open spec fn slides_to(role: Role, a: int, b: int, occupied: u64) -> bool {
    match role {
        Role::Bishop => bishop_sees(a, b, occupied),
        Role::Rook => rook_sees(a, b, occupied),
        Role::Queen => rook_sees(a, b, occupied) || bishop_sees(a, b, occupied),
        _ => false,
    }
}

/// `b` holds exactly the squares for which `member` holds.
pub open spec fn bb_is(b: u64, member: spec_fn(int) -> bool) -> bool {
    forall|t: int| 0 <= t < 64 ==> (#[trigger] bb_has(b, t) <==> member(t))
}

// ---------------------------------------------------------------------------
// Material and occupancy.

/// The conventional material value of a piece, the king counting as 10000.
pub open spec fn spec_piece_value(role: Role) -> int {
    match role {
        Role::Pawn => 100,
        Role::Knight => 300,
        Role::Bishop => 300,
        Role::Rook => 500,
        Role::Queen => 900,
        Role::King => 10000,
    }
}

pub open spec fn is_occupied(board: Seq<Option<Piece>>, s: int) -> bool {
    board[s] is Some
}

/// The occupied squares of a board, as a bit set.
pub open spec fn occupancy(board: Seq<Option<Piece>>) -> u64 {
    bits_below(|s: int| board[s] is Some, 64)
}

/// The square holds a piece of `color`.
pub open spec fn has_color(board: Seq<Option<Piece>>, s: int, color: Color) -> bool {
    board[s] matches Some(p) && p.color == color
}

/// A piece of `color` on `s` attacks `target`; written, as the attack tables
/// are consulted, from the attacked square outwards.
pub open spec fn attacker_on(board: Seq<Option<Piece>>, target: int, color: Color, occupied: u64, s: int) -> bool {
    board[s] matches Some(p) && p.color == color && match p.role {
        Role::Rook => rook_sees(target, s, occupied),
        Role::Bishop => bishop_sees(target, s, occupied),
        Role::Queen => rook_sees(target, s, occupied) || bishop_sees(target, s, occupied),
        Role::Knight => knight_step(target, s),
        Role::King => king_step(target, s),
        Role::Pawn => pawn_step(color.spec_other(), target, s),
    }
}

/// Some piece of `color` attacks `target`.
pub open spec fn spec_attacked_by(board: Seq<Option<Piece>>, target: int, color: Color, occupied: u64) -> bool {
    exists|s: int| on_board(s) && attacker_on(board, target, color, occupied, s)
}

/// The squares holding a king of `color`.
pub open spec fn king_square(board: Seq<Option<Piece>>, color: Color) -> spec_fn(int) -> bool {
    |s: int| board[s] == Some(Piece { color, role: Role::King })
}

/// The unique king of `color`, if it has exactly one.
pub open spec fn spec_king_of(board: Seq<Option<Piece>>, color: Color) -> Option<int> {
    if count_below(king_square(board, color), 64) == 1 {
        Some(choose|s: int| on_board(s) && king_square(board, color)(s))
    } else {
        None
    }
}

pub proof fn lemma_occupancy(board: Seq<Option<Piece>>)
    ensures
        forall|t: int| 0 <= t < 64 ==> (bb_has(occupancy(board), t) <==> #[trigger] board[t] is Some),
{
    lemma_bits_below(|s: int| board[s] is Some, 64);
}

/// The unique king is a king of that color on the board.
pub proof fn lemma_king_of_square(board: Seq<Option<Piece>>, color: Color)
    ensures
        spec_king_of(board, color) matches Some(k) ==> on_board(k) && board[k] == Some(
            Piece { color, role: Role::King },
        ),
{
    let pred = king_square(board, color);
    if count_below(pred, 64) == 1 {
        lemma_count_positive_witness(pred, 64);
        let k0 = choose|s: int| 0 <= s < 64 && #[trigger] pred(s);
        assert(board[k0] == Some(Piece { color, role: Role::King }));
        assert(on_board(k0) && king_square(board, color)(k0));
    }
}

/// A positive count has a witness.
pub proof fn lemma_count_positive_witness(pred: spec_fn(int) -> bool, n: int)
    requires
        count_below(pred, n) > 0,
    ensures
        exists|s: int| 0 <= s < n && #[trigger] pred(s),
    decreases n,
{
    if n > 0 && !pred(n - 1) {
        lemma_count_positive_witness(pred, n - 1);
    }
}

impl Board {
    /// The occupied squares, as a bit set.
    pub fn occupied(&self) -> (r: u64)
        requires
            self.wf(),
        ensures
            r == occupancy(self@),
    {
        let mut occ: u64 = 0;
        let mut i: usize = 0;
        while i < 64
            invariant
                self.wf(),
                i <= 64,
                occ == bits_below(|s: int| self@[s] is Some, i as int),
            decreases 64 - i,
        {
            if self.squares[i].is_some() {
                occ = occ | (1u64 << (i as u64));
            }
            i = i + 1;
        }
        occ
    }

    /// The unique king of `color`, if there is exactly one.
    pub fn king_of(&self, color: Color) -> (r: Option<u8>)
        requires
            self.wf(),
        ensures
            r matches Some(k) ==> spec_king_of(self@, color) == Some(k as int),
            r is None ==> spec_king_of(self@, color) is None,
    {
        let ghost is_king = king_square(self@, color);
        let mut count: usize = 0;
        let mut found: u8 = 0;
        let mut i: usize = 0;
        while i < 64
            invariant
                self.wf(),
                i <= 64,
                is_king == king_square(self@, color),
                count <= i,
                count == count_below(is_king, i as int),
                count == 0 ==> (forall|s: int| 0 <= s < i ==> !#[trigger] is_king(s)),
                count > 0 ==> found < 64 && is_king(found as int),
                count == 1 ==> (forall|s: int| 0 <= s < i && #[trigger] is_king(s) ==> s == found),
            decreases 64 - i,
        {
            let here = match self.squares[i] {
                Some(p) => p.color == color && p.role == Role::King,
                None => false,
            };
            assert(here == is_king(i as int));
            if here {
                if count == 0 {
                    found = i as u8;
                }
                count = count + 1;
            }
            i = i + 1;
        }
        if count == 1 {
            proof {
                let c = choose|s: int| on_board(s) && is_king(s);
                assert(on_board(found as int) && is_king(found as int));
                assert(c == found);
            }
            Some(found)
        } else {
            None
        }
    }
}

} // verus!
