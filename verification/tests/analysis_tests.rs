use grandmaster_recall::analysis::{AnalysisError, GameAnalysis};
use grandmaster_recall::board::Color;
use grandmaster_recall::models::{EngineEvalResponse, MoveEval};

const PGN: &str = "[White \"Alice\"]\n[Black \"Bob\"]\n[Opening \"King's Pawn Game\"]\n\n1. e4 e5 2. Qh5 Nc6 3. Qxf7+ 1-0";

fn eval(best: &str, cp: Option<i32>, mate: Option<i32>, pv: &[&str]) -> EngineEvalResponse {
    let pv: Vec<String> = pv.iter().map(|m| m.to_string()).collect();
    EngineEvalResponse {
        fen: String::new(),
        depth: 12,
        best_move: best.to_string(),
        score_cp: cp,
        mate_in: mate,
        lines: vec![MoveEval { uci: pv[0].clone(), san: None, score_cp: cp, mate_in: mate, pv }],
    }
}

#[test]
fn analysis_requires_the_user_to_have_played() {
    assert!(matches!(GameAnalysis::start(PGN, "carol", "Alice", "Bob"), Err(AnalysisError::NotAPlayer)));
    let a = GameAnalysis::start(PGN, "BOB", "Alice", "Bob").unwrap();
    assert_eq!(a.user_color, Color::Black);
    assert_eq!(a.opening, Some("King's Pawn Game".to_string()));
    assert_eq!(a.moves.len(), 5);
}

#[test]
fn analysis_records_a_blunder() {
    let mut a = GameAnalysis::start(PGN, "alice", "Alice", "Bob").unwrap();
    assert_eq!(a.user_color, Color::White);

    // Move 1 is never examined; move 2 (Qh5) is.
    let q = a.next_request().unwrap();
    assert!(!q.after_move);
    assert_eq!(q.fen, "rnbqkbnr/pppp1ppp/8/4p3/4P3/8/PPPP1PPP/RNBQKBNR w KQkq - 0 2");
    a.supply_eval(Some(eval("g1f3", Some(30), None, &["g1f3", "b8c6", "f1c4", "g8f6"])));

    let q = a.next_request().unwrap();
    assert!(q.after_move);
    a.supply_eval(Some(eval("b8c6", Some(300), None, &["b8c6", "f1c4", "g8f6"])));

    // Move 3 (Qxf7+) agrees with the engine: nothing more to ask for it.
    let q = a.next_request().unwrap();
    assert!(!q.after_move);
    a.supply_eval(Some(eval("h5f7", Some(500), None, &["h5f7"])));
    assert!(a.next_request().is_none());

    let puzzles = a.into_puzzles();
    assert_eq!(puzzles.len(), 1);
    let p = &puzzles[0];
    assert_eq!(p.move_number, 2);
    assert_eq!(p.player_color, "white");
    assert_eq!(p.blunder_move_san, "Qh5");
    assert_eq!(p.blunder_move_uci, "d1h5");
    assert_eq!(p.best_move_uci, "g1f3");
    assert_eq!(p.best_move_san, "Nf3");
    assert_eq!(p.eval_before, 30);
    assert_eq!(p.eval_after_blunder, -300);
    assert_eq!(p.eval_after_best, 30);
    assert_eq!(p.blunder_severity, "blunder");
    assert_eq!(p.continuation_uci, vec!["g1f3", "b8c6", "f1c4"]);
    assert_eq!(p.blunder_continuation_uci, vec!["b8c6", "f1c4"]);
    assert_eq!(p.opening_name, Some("King's Pawn Game".to_string()));
    assert!(p.tactical_tags.contains(&"Opening Mistake".to_string()));
}

#[test]
fn analysis_skips_small_losses_and_failed_evaluations() {
    let mut a = GameAnalysis::start(PGN, "alice", "Alice", "Bob").unwrap();
    let _ = a.next_request().unwrap();
    a.supply_eval(Some(eval("g1f3", Some(30), None, &["g1f3"])));
    let _ = a.next_request().unwrap();
    // After Qh5 Black stands only 20 better: a loss of 50, no puzzle.
    a.supply_eval(Some(eval("b8c6", Some(20), None, &["b8c6"])));
    let _ = a.next_request().unwrap();
    // The engine fails on the next position: the ply is skipped.
    a.supply_eval(None);
    assert!(a.next_request().is_none());
    assert!(a.into_puzzles().is_empty());
}

#[test]
fn a_mating_move_is_never_graded() {
    let pgn = "[White \"Alice\"]\n[Black \"Bob\"]\n\n1. e4 e5 2. Bc4 Nc6 3. Qh5 Nf6 4. Qxf7# 1-0";
    let mut a = GameAnalysis::start(pgn, "alice", "Alice", "Bob").unwrap();
    let mut before_requests = 0;
    let mut after_requests = 0;
    while let Some(q) = a.next_request() {
        if q.after_move {
            after_requests += 1;
            // Every examined move loses a lot by this engine's account.
            a.supply_eval(Some(eval("a2a3", None, Some(1), &["a2a3"])));
        } else {
            before_requests += 1;
            a.supply_eval(Some(eval("a2a3", Some(300), None, &["a2a3"])));
        }
    }
    // Bc4, Qh5 and Qxf7# are examined; only the first two are graded.
    assert_eq!(before_requests, 3);
    assert_eq!(after_requests, 2);
    let puzzles = a.into_puzzles();
    assert_eq!(puzzles.len(), 2);
    assert!(puzzles.iter().all(|p| p.blunder_move_san != "Qxf7#"));
    // In move order, each with the game's (absent) opening.
    assert_eq!(puzzles[0].move_number, 2);
    assert_eq!(puzzles[1].move_number, 3);
    assert!(puzzles.iter().all(|p| p.opening_name.is_none()));
}
