//! The records that the trainer stores, receives and answers with.

use vstd::prelude::*;

verus! {

/// A missed move found in one of the user's games, ready to become a puzzle.
#[derive(Debug, Clone)]
pub struct DetectedPuzzle {
    pub initial_fen: String,
    pub move_number: i32,
    pub player_color: String,
    pub blunder_move_san: String,
    pub blunder_move_uci: String,
    pub best_move_san: String,
    pub best_move_uci: String,
    pub eval_before: i32,
    pub eval_after_blunder: i32,
    pub eval_after_best: i32,
    pub continuation_uci: Vec<String>,
    pub blunder_continuation_uci: Vec<String>,
    pub tactical_tags: Vec<String>,
    pub blunder_severity: String,
    pub opening_name: Option<String>,
}

/// The list of monthly archive URLs of a Chess.com player.
#[derive(Debug, Clone)]
pub struct ArchivesResponse {
    pub archives: Vec<String>,
}

/// The games of one monthly archive.
#[derive(Debug, Clone)]
pub struct MonthlyGamesResponse {
    pub games: Vec<ChessComGame>,
}

/// One side of a Chess.com game.
#[derive(Debug, Clone)]
pub struct ChessComPlayer {
    pub username: String,
    pub rating: Option<i32>,
    pub result: String,
}

/// A game as Chess.com reports it.
#[derive(Debug, Clone)]
pub struct ChessComGame {
    pub url: String,
    pub pgn: Option<String>,
    pub time_class: String,
    pub rules: String,
    pub white: ChessComPlayer,
    pub black: ChessComPlayer,
    pub end_time: i64,
}

/// A request to import a user's recent games.
#[derive(Debug, Clone)]
pub struct SyncRequest {
    pub username: String,
    /// The time classes to import; by default rapid and blitz.
    pub time_classes: Option<Vec<String>>,
    /// The most games to import; by default 30.
    pub max_games: Option<usize>,
    /// How many monthly archives to look back; by default 2.
    pub months_back: Option<usize>,
    /// The engine's search depth; by default 14.
    pub engine_depth: Option<u32>,
}

/// The progress of an import.
#[derive(Debug, Clone)]
pub struct SyncStatus {
    pub username: String,
    pub state: String,
    pub total_games: usize,
    pub processed_games: usize,
    pub puzzles_found: usize,
    pub current_game: Option<String>,
    pub error: Option<String>,
}

/// An attempt at a puzzle.
#[derive(Debug, Clone)]
pub struct SolveAttemptRequest {
    pub user_id: i64,
    pub success: bool,
    pub hints_used: i32,
    pub time_taken_ms: i64,
    pub quality: Option<u8>,
}

/// A request for an engine evaluation.
#[derive(Debug, Clone)]
pub struct EngineEvalRequest {
    pub fen: String,
    pub depth: Option<u32>,
    pub multi_pv: Option<u32>,
}

/// One principal variation reported by the engine.
#[derive(Debug, Clone)]
pub struct MoveEval {
    pub uci: String,
    pub san: Option<String>,
    pub score_cp: Option<i32>,
    pub mate_in: Option<i32>,
    pub pv: Vec<String>,
}

/// The engine's evaluation of a position.
#[derive(Debug, Clone)]
pub struct EngineEvalResponse {
    pub fen: String,
    pub depth: u32,
    pub best_move: String,
    pub score_cp: Option<i32>,
    pub mate_in: Option<i32>,
    pub lines: Vec<MoveEval>,
}

/// A request to check a move played in a puzzle.
#[derive(Debug, Clone)]
pub struct ValidateMoveRequest {
    pub fen: String,
    pub move_uci: String,
    pub expected_best_uci: String,
    pub player_color: String,
}

/// The verdict on a move played in a puzzle.
#[derive(Debug, Clone)]
pub struct ValidateMoveResponse {
    pub is_valid: bool,
    pub is_best: bool,
    pub eval_diff_cp: i32,
    pub explanation: String,
    pub opponent_reply_uci: Option<String>,
}

/// How often an opening led to a recorded mistake.
#[derive(Debug, Clone)]
pub struct OpeningStat {
    pub opening_name: String,
    pub blunder_count: i64,
}

/// Query of the review queue.
#[derive(Debug, Clone)]
pub struct ReviewQuery {
    pub user_id: i64,
    pub limit: Option<i64>,
}

/// Query of a user's puzzle list.
#[derive(Debug, Clone)]
pub struct AllPuzzlesQuery {
    pub user_id: i64,
    pub limit: Option<i64>,
    pub offset: Option<i64>,
    pub severity: Option<String>,
}

/// Query of a user's statistics.
#[derive(Debug, Clone)]
pub struct StatsQuery {
    pub user_id: i64,
}

/// Query of an import's progress.
#[derive(Debug, Clone)]
pub struct SyncStatusQuery {
    pub username: String,
}

/// Query of a user profile.
#[derive(Debug, Clone)]
pub struct UserQuery {
    pub username: String,
}

} // verus!
