//! Positions and moves obtained from the `shakmaty` crate, which parses FEN,
//! UCI and SAN, generates legal moves and plays them.

use vstd::prelude::*;
use crate::board::{Board, Color, Move, Piece, Position, Role};
use shakmaty::{CastlingMode, Chess, EnPassantMode, Position as _, Square};
use shakmaty::fen::Fen;
use shakmaty::san::San;
use shakmaty::uci::UciMove;

verus! {

/// What the `shakmaty` crate reports of a position given in FEN: for each
/// square 0..64 its piece as (is white, role number 1..=6 from pawn to
/// king), whether white is to move, the number of pieces giving check,
/// whether the side to move is in check, checkmated, stalemated, whether
/// neither side has mating material, and the number of legal moves.
pub struct PositionFacts {
    pub squares: Vec<Option<(bool, u8)>>,
    pub white_to_move: bool,
    pub checkers: u32,
    pub is_check: bool,
    pub is_checkmate: bool,
    pub is_stalemate: bool,
    pub is_insufficient_material: bool,
    pub legal_moves: u32,
}

/// The facts as plain values.
pub open spec fn facts_view(f: PositionFacts) -> (Seq<Option<(bool, u8)>>, bool, u32, bool, bool, bool, bool, u32) {
    (f.squares@, f.white_to_move, f.checkers, f.is_check, f.is_checkmate, f.is_stalemate, f.is_insufficient_material, f.legal_moves)
}

/// What `shakmaty` reports of the position with this FEN (standard chess,
/// standard castling), if it accepts the FEN.
pub uninterp spec fn fen_facts(fen: Seq<char>) -> Option<(Seq<Option<(bool, u8)>>, bool, u32, bool, bool, bool, bool, u32)>;

/// The move that a UCI string denotes in the position with this FEN, as
/// (role number, origin, destination, captured role number, promotion role
/// number), with the FEN of the position after it, if the move is legal.
pub uninterp spec fn uci_outcome(fen: Seq<char>, uci: Seq<char>) -> Option<(u8, Option<u8>, u8, Option<u8>, Option<u8>, Seq<char>)>;

/// The move that a SAN string denotes in the position with this FEN, as for
/// `uci_outcome`, with its UCI string and the FEN of the position after it.
pub uninterp spec fn san_outcome(fen: Seq<char>, san: Seq<char>) -> Option<(u8, Option<u8>, u8, Option<u8>, Option<u8>, Seq<char>, Seq<char>)>;

/// The SAN of the move that a UCI string denotes in the position with this
/// FEN, if the move is legal.
pub uninterp spec fn uci_as_san(fen: Seq<char>, uci: Seq<char>) -> Option<Seq<char>>;

pub open spec fn valid_role_code(c: u8) -> bool {
    1 <= c <= 6
}

/// Calls `Fen::from_str`, `Fen::into_position::<Chess>` and the position's
/// queries `Board::piece_at`, `turn`, `checkers`, `is_check`,
/// `is_checkmate`, `is_stalemate`, `is_insufficient_material` and
/// `legal_moves`.  Claims that the result is `fen_facts(fen)`, that there
/// are 64 squares with role numbers in 1..=6, that the side to move is in
/// check exactly when some piece gives check, and that a checkmate is a
/// check with no legal move.
#[verifier::external_body]
pub(crate) fn read_position(fen: &str) -> (r: Option<PositionFacts>)
    ensures
        match r {
            Some(f) => fen_facts(fen@) == Some(facts_view(f)),
            None => fen_facts(fen@) is None,
        },
        r matches Some(f) ==> f.squares@.len() == 64 && (forall|i: int| 0 <= i < 64 ==> (#[trigger] f.squares@[i] matches Some((w, c)) ==> valid_role_code(c)))
            && f.is_check == (f.checkers > 0) && f.is_checkmate == (f.is_check && f.legal_moves == 0),
{
    let pos: Chess = fen.parse::<Fen>().ok()?.into_position(CastlingMode::Standard).ok()?;
    let board = pos.board();
    let squares = (0..64u32).map(|i| board.piece_at(Square::new(i)).map(|p| (p.color == shakmaty::Color::White, u8::from(p.role)))).collect();
    Some(PositionFacts {
        squares,
        white_to_move: pos.turn() == shakmaty::Color::White,
        checkers: pos.checkers().count() as u32,
        is_check: pos.is_check(),
        is_checkmate: pos.is_checkmate(),
        is_stalemate: pos.is_stalemate(),
        is_insufficient_material: pos.is_insufficient_material(),
        legal_moves: pos.legal_moves().len() as u32,
    })
}

/// Calls `UciMove::from_str`, `UciMove::to_move`, `Position::play_unchecked`
/// and `Fen::from_position` (legal en-passant squares only).  Claims that the
/// result is `uci_outcome(fen, uci)` with role numbers in 1..=6 and squares
/// below 64.
#[verifier::external_body]
pub(crate) fn play_uci(fen: &str, uci: &str) -> (r: Option<(u8, Option<u8>, u8, Option<u8>, Option<u8>, String)>)
    ensures
        match r {
            Some((a, b, c, d, e, f)) => uci_outcome(fen@, uci@) == Some((a, b, c, d, e, f@)),
            None => uci_outcome(fen@, uci@) is None,
        },
        r matches Some((a, b, c, d, e, f)) ==> valid_role_code(a) && c < 64 && (b matches Some(x) ==> x < 64)
            && (d matches Some(x) ==> valid_role_code(x)) && (e matches Some(x) ==> valid_role_code(x)),
{
    let mut pos: Chess = fen.parse::<Fen>().ok()?.into_position(CastlingMode::Standard).ok()?;
    let m = uci.parse::<UciMove>().ok()?.to_move(&pos).ok()?;
    pos.play_unchecked(&m);
    let after = Fen::from_position(pos, EnPassantMode::Legal).to_string();
    Some((u8::from(m.role()), m.from().map(u8::from), u8::from(m.to()), m.capture().map(u8::from), m.promotion().map(u8::from), after))
}

/// The side to move differs between the two positions, wherever both FENs
/// can be read.
pub open spec fn turn_passes(fen: Seq<char>, after: Seq<char>) -> bool {
    match (fen_facts(fen), fen_facts(after)) {
        (Some(a), Some(b)) => a.1 != b.1,
        _ => true,
    }
}

/// Calls `San::from_str`, `San::to_move`, `UciMove::from_move` (standard
/// castling notation), `Position::play_unchecked` and `Fen::from_position`.
/// Claims that the result is `san_outcome(fen, san)` with role numbers in
/// 1..=6 and squares below 64, and that the move passes the turn to the
/// other side (`play_unchecked` sets the turn to the opponent, and the FEN
/// written afterwards records it).
#[verifier::external_body]
pub(crate) fn play_san(fen: &str, san: &str) -> (r: Option<(u8, Option<u8>, u8, Option<u8>, Option<u8>, String, String)>)
    ensures
        match r {
            Some((a, b, c, d, e, u, f)) => san_outcome(fen@, san@) == Some((a, b, c, d, e, u@, f@)),
            None => san_outcome(fen@, san@) is None,
        },
        r matches Some((a, b, c, d, e, u, f)) ==> valid_role_code(a) && c < 64 && (b matches Some(x) ==> x < 64)
            && (d matches Some(x) ==> valid_role_code(x)) && (e matches Some(x) ==> valid_role_code(x)),
        r matches Some((a, b, c, d, e, u, f)) ==> turn_passes(fen@, f@),
{
    let mut pos: Chess = fen.parse::<Fen>().ok()?.into_position(CastlingMode::Standard).ok()?;
    let m = san.parse::<San>().ok()?.to_move(&pos).ok()?;
    let uci = UciMove::from_move(&m, CastlingMode::Standard).to_string();
    pos.play_unchecked(&m);
    let after = Fen::from_position(pos, EnPassantMode::Legal).to_string();
    Some((u8::from(m.role()), m.from().map(u8::from), u8::from(m.to()), m.capture().map(u8::from), m.promotion().map(u8::from), uci, after))
}

/// Calls `UciMove::from_str`, `UciMove::to_move` and `San::from_move`.
/// Claims that the result is `uci_as_san(fen, uci)`.
#[verifier::external_body]
pub(crate) fn san_of_uci(fen: &str, uci: &str) -> (r: Option<String>)
    ensures
        match r {
            Some(s) => uci_as_san(fen@, uci@) == Some(s@),
            None => uci_as_san(fen@, uci@) is None,
        },
{
    let pos: Chess = fen.parse::<Fen>().ok()?.into_position(CastlingMode::Standard).ok()?;
    let m = uci.parse::<UciMove>().ok()?.to_move(&pos).ok()?;
    Some(San::from_move(&pos, &m).to_string())
}

/// The role with number 1..=6 (pawn, knight, bishop, rook, queen, king).
pub open spec fn role_of_code(c: u8) -> Role {
    if c == 1 {
        Role::Pawn
    } else if c == 2 {
        Role::Knight
    } else if c == 3 {
        Role::Bishop
    } else if c == 4 {
        Role::Rook
    } else if c == 5 {
        Role::Queen
    } else {
        Role::King
    }
}

pub fn role_from_code(c: u8) -> (r: Role)
    ensures
        r == role_of_code(c),
{
    if c == 1 {
        Role::Pawn
    } else if c == 2 {
        Role::Knight
    } else if c == 3 {
        Role::Bishop
    } else if c == 4 {
        Role::Rook
    } else if c == 5 {
        Role::Queen
    } else {
        Role::King
    }
}

pub open spec fn color_of_flag(white: bool) -> Color {
    if white {
        Color::White
    } else {
        Color::Black
    }
}

pub open spec fn piece_of_code(code: Option<(bool, u8)>) -> Option<Piece> {
    match code {
        Some((w, c)) => Some(Piece { color: color_of_flag(w), role: role_of_code(c) }),
        None => None,
    }
}

pub open spec fn opt_role(c: Option<u8>) -> Option<Role> {
    match c {
        Some(x) => Some(role_of_code(x)),
        None => None,
    }
}

/// The move described by the numbers that `shakmaty` reports.
pub open spec fn move_of_codes(role: u8, from: Option<u8>, to: u8, capture: Option<u8>, promotion: Option<u8>) -> Move {
    Move { role: role_of_code(role), from, to, capture: opt_role(capture), promotion: opt_role(promotion) }
}

/// The position that a FEN describes, as `shakmaty` reads it.
pub open spec fn spec_position_of(fen: Seq<char>, f: (Seq<Option<(bool, u8)>>, bool, u32, bool, bool, bool, bool, u32)) -> (Seq<char>, Seq<Option<Piece>>, Color, u32, bool, bool, bool, bool, u32) {
    (fen, f.0.map_values(|c: Option<(bool, u8)>| piece_of_code(c)), color_of_flag(f.1), f.2, f.3, f.4, f.5, f.6, f.7)
}

/// A position by its parts.
pub open spec fn position_view(p: Position) -> (Seq<char>, Seq<Option<Piece>>, Color, u32, bool, bool, bool, bool, u32) {
    (p.fen@, p.board@, p.turn, p.checkers, p.is_check, p.is_checkmate, p.is_stalemate, p.is_insufficient_material, p.legal_move_count)
}

fn opt_role_from_code(c: Option<u8>) -> (r: Option<Role>)
    ensures
        r == opt_role(c),
{
    match c {
        Some(x) => Some(role_from_code(x)),
        None => None,
    }
}

fn color_from_flag(white: bool) -> (r: Color)
    ensures
        r == color_of_flag(white),
{
    if white {
        Color::White
    } else {
        Color::Black
    }
}

impl Position {
    /// The position that the FEN describes, if `shakmaty` accepts it.
    pub fn from_fen(fen: &str) -> (r: Option<Position>)
        ensures
            match r {
                Some(p) => p.wf() && (fen_facts(fen@) matches Some(f) && position_view(p) == spec_position_of(fen@, f)),
                None => fen_facts(fen@) is None,
            },
    {
        let facts = match read_position(fen) {
            Some(f) => f,
            None => return None,
        };
        let mut squares: Vec<Option<Piece>> = Vec::new();
        let mut i: usize = 0;
        while i < 64
            invariant
                facts.squares@.len() == 64,
                i <= 64,
                squares@.len() == i,
                forall|j: int| 0 <= j < i ==> squares@[j] == piece_of_code(#[trigger] facts.squares@[j]),
            decreases 64 - i,
        {
            let sq = match facts.squares[i] {
                Some((w, c)) => Some(Piece { color: color_from_flag(w), role: role_from_code(c) }),
                None => None,
            };
            squares.push(sq);
            i = i + 1;
        }
        let p = Position {
            fen: fen.to_string(),
            board: Board { squares },
            turn: color_from_flag(facts.white_to_move),
            checkers: facts.checkers,
            is_check: facts.is_check,
            is_checkmate: facts.is_checkmate,
            is_stalemate: facts.is_stalemate,
            is_insufficient_material: facts.is_insufficient_material,
            legal_move_count: facts.legal_moves,
        };
        assert(p.board@ =~= facts.squares@.map_values(|c: Option<(bool, u8)>| piece_of_code(c)));
        Some(p)
    }
}

/// Plays the move given in UCI notation on the position with this FEN:
/// the move as the detectors see it, and the FEN after it.
pub fn move_from_uci(fen: &str, uci: &str) -> (r: Option<(Move, String)>)
    ensures
        match r {
            Some((m, after)) => m.wf() && (uci_outcome(fen@, uci@) matches Some((a, b, c, d, e, f))
                && m == move_of_codes(a, b, c, d, e) && after@ == f),
            None => uci_outcome(fen@, uci@) is None,
        },
{
    match play_uci(fen, uci) {
        Some((a, b, c, d, e, f)) => {
            let m = Move { role: role_from_code(a), from: b, to: c, capture: opt_role_from_code(d), promotion: opt_role_from_code(e) };
            Some((m, f))
        },
        None => None,
    }
}

} // verus!
