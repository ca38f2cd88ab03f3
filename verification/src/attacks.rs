//! The attack and ray tables of the `shakmaty` crate, with what each table
//! holds stated in board geometry.

use vstd::prelude::*;
use crate::board::{
    bb_is, bishop_sees, king_step, knight_step, on_ray, pawn_step, rook_sees, strictly_between,
    Color,
};

verus! {

/// Calls `shakmaty::attacks::pawn_attacks`: the squares that a pawn of
/// `color` on `sq` attacks (one rank forward, one file aside).
#[verifier::external_body]
pub(crate) fn pawn_attacks(color: Color, sq: u8) -> (r: u64)
    requires
        sq < 64,
    ensures
        bb_is(r, |t: int| pawn_step(color, sq as int, t)),
{
    let c = match color {
        Color::White => shakmaty::Color::White,
        Color::Black => shakmaty::Color::Black,
    };
    shakmaty::attacks::pawn_attacks(c, shakmaty::Square::new(sq as u32)).0
}

/// Calls `shakmaty::attacks::knight_attacks`: the squares a knight's jump
/// away from `sq`.
#[verifier::external_body]
pub(crate) fn knight_attacks(sq: u8) -> (r: u64)
    requires
        sq < 64,
    ensures
        bb_is(r, |t: int| knight_step(sq as int, t)),
{
    shakmaty::attacks::knight_attacks(shakmaty::Square::new(sq as u32)).0
}

/// Calls `shakmaty::attacks::king_attacks`: the squares one king step away
/// from `sq`.
#[verifier::external_body]
pub(crate) fn king_attacks(sq: u8) -> (r: u64)
    requires
        sq < 64,
    ensures
        bb_is(r, |t: int| king_step(sq as int, t)),
{
    shakmaty::attacks::king_attacks(shakmaty::Square::new(sq as u32)).0
}

/// Calls `shakmaty::attacks::rook_attacks`: the squares on the rank and file
/// of `sq` up to and including the first occupied square in each direction.
#[verifier::external_body]
pub(crate) fn rook_attacks(sq: u8, occupied: u64) -> (r: u64)
    requires
        sq < 64,
    ensures
        bb_is(r, |t: int| rook_sees(sq as int, t, occupied)),
{
    shakmaty::attacks::rook_attacks(shakmaty::Square::new(sq as u32), shakmaty::Bitboard(occupied)).0
}

/// Calls `shakmaty::attacks::bishop_attacks`: the squares on the diagonals of
/// `sq` up to and including the first occupied square in each direction.
#[verifier::external_body]
pub(crate) fn bishop_attacks(sq: u8, occupied: u64) -> (r: u64)
    requires
        sq < 64,
    ensures
        bb_is(r, |t: int| bishop_sees(sq as int, t, occupied)),
{
    shakmaty::attacks::bishop_attacks(shakmaty::Square::new(sq as u32), shakmaty::Bitboard(occupied)).0
}

/// Calls `shakmaty::attacks::queen_attacks`: the union of the rook and
/// bishop attacks from `sq`.
#[verifier::external_body]
pub(crate) fn queen_attacks(sq: u8, occupied: u64) -> (r: u64)
    requires
        sq < 64,
    ensures
        bb_is(r, |t: int| rook_sees(sq as int, t, occupied) || bishop_sees(sq as int, t, occupied)),
{
    shakmaty::attacks::queen_attacks(shakmaty::Square::new(sq as u32), shakmaty::Bitboard(occupied)).0
}

/// Calls `shakmaty::attacks::between`: the squares strictly between `a` and
/// `b` when they share a rank, file or diagonal, and none otherwise.
#[verifier::external_body]
pub(crate) fn between(a: u8, b: u8) -> (r: u64)
    requires
        a < 64,
        b < 64,
    ensures
        bb_is(r, |c: int| strictly_between(a as int, b as int, c)),
{
    shakmaty::attacks::between(shakmaty::Square::new(a as u32), shakmaty::Square::new(b as u32)).0
}

/// Calls `shakmaty::attacks::ray`: the whole rank, file or diagonal through
/// two distinct aligned squares, and no square otherwise.
#[verifier::external_body]
pub(crate) fn ray(a: u8, b: u8) -> (r: u64)
    requires
        a < 64,
        b < 64,
    ensures
        bb_is(r, |c: int| on_ray(a as int, b as int, c)),
{
    shakmaty::attacks::ray(shakmaty::Square::new(a as u32), shakmaty::Square::new(b as u32)).0
}

} // verus!
