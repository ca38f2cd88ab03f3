use grandmaster_recall::analyzer::GameAnalyzer;
use grandmaster_recall::board::Position;
use grandmaster_recall::chess_io::move_from_uci;
use grandmaster_recall::pgn::{move_text, moves_from_text, opening_from_slug};

const START_FEN: &str = "rnbqkbnr/pppppppp/8/8/8/8/PPPPPPPP/RNBQKBNR w KQkq - 0 1";

fn tags_for(fen: &str, played_uci: &str, best_uci: &str, move_number: i32, severity: &str) -> Vec<String> {
    let pos = Position::from_fen(fen).unwrap();
    let (played, _) = move_from_uci(fen, played_uci).unwrap();
    GameAnalyzer::detect_tactical_tags(&pos, &played, best_uci, move_number, severity)
}

#[test]
fn test_extract_opening() {
    let pgn1 = r#"[Event "Live Chess"]
[Site "Chess.com"]
[ECOUrl "https://www.chess.com/openings/Sicilian-Defense-Najdorf-Variation"]
1. e4 c5 2. Nf3 d6 3. d4 cxd4 4. Nxd4 Nf6 5. Nc3 a6"#;
    assert_eq!(
        GameAnalyzer::extract_opening(pgn1),
        Some("Sicilian Defense Najdorf Variation".to_string())
    );

    let pgn2 = r#"[Event "Live Chess"]
[Opening "Queen's Gambit Declined: Traditional"]
1. d4 d5 2. c4 e6"#;
    assert_eq!(
        GameAnalyzer::extract_opening(pgn2),
        Some("Queen's Gambit Declined: Traditional".to_string())
    );
}

#[test]
fn test_parse_pgn_moves() {
    let pgn = r#"[Event "Live Chess"]
[White "Player1"]
[Black "Player2"]

1. e4 {[%clk 0:03:00]} 1... e5 {[%clk 0:02:58]} 2. Nf3 {[%clk 0:02:55]} 2... Nc6 {[%clk 0:02:50]} 3. Bb5 1-0"#;

    let moves = GameAnalyzer::parse_pgn_moves(pgn);
    assert_eq!(moves, vec!["e4", "e5", "Nf3", "Nc6", "Bb5"]);
}

#[test]
fn test_score_from_side_to_move() {
    assert_eq!(GameAnalyzer::score_from_side_to_move(Some(150), None), 150);
    assert_eq!(GameAnalyzer::score_from_side_to_move(None, Some(1)), 9900);
    assert_eq!(GameAnalyzer::score_from_side_to_move(None, Some(-1)), -9900);
    assert_eq!(GameAnalyzer::score_from_side_to_move(None, Some(0)), -10000);
}

#[test]
fn test_score_from_pov() {
    assert_eq!(GameAnalyzer::score_from_pov(Some(150), None, true), 150);
    assert_eq!(GameAnalyzer::score_from_pov(Some(150), None, false), -150);
    assert_eq!(GameAnalyzer::score_from_pov(None, Some(2), true), 9800);
    assert_eq!(GameAnalyzer::score_from_pov(None, Some(2), false), -9800);
}

#[test]
fn test_tactical_tags_detection() {
    let tags = tags_for(START_FEN, "e2e4", "d2d4", 2, "blunder");
    assert!(tags.contains(&"Opening Mistake".to_string()));
}

#[test]
fn test_fork_detection() {
    // White Knight on e6 plays Nc7+, forking King on e8 and Rook on a8
    let tags = tags_for("r3k3/8/4N3/8/8/8/8/4K3 w - - 0 1", "e1f2", "e6c7", 15, "blunder");
    assert!(tags.contains(&"Fork".to_string()));
}

#[test]
fn test_pin_detection() {
    // White Rook on a1 plays Re1, pinning Black Knight on e6 to Black King on e8
    let tags = tags_for("4k3/8/4n3/8/8/8/8/R5K1 w - - 0 1", "g1f2", "a1e1", 15, "blunder");
    assert!(tags.contains(&"Pin".to_string()));
}

#[test]
fn test_skewer_detection() {
    // White Rook on a1 plays Re1+, attacking King on e7 and skewering Queen on e8 behind it
    let tags = tags_for("4q3/4k3/8/8/8/8/8/R5K1 w - - 0 1", "g1f2", "a1e1", 15, "blunder");
    assert!(tags.contains(&"Skewer".to_string()));
}

#[test]
fn test_discovered_check_and_attack() {
    // White Rook on e1, Knight on e4, Black King on e8: the knight unblocks the e-file.
    let tags = tags_for("4k3/8/8/8/4N3/8/8/4R1K1 w - - 0 1", "g1f2", "e4c3", 15, "blunder");
    assert!(tags.contains(&"Discovered Check".to_string()));
}

#[test]
fn test_smothered_mate_detection() {
    // Black King on h8 surrounded by the g8 Rook and the g7 and h7 pawns; Nf7#
    let tags = tags_for("6rk/6pp/7N/8/8/8/8/7K w - - 0 1", "h1h2", "h6f7", 15, "blunder");
    assert!(tags.contains(&"Smothered Mate".to_string()));
}

#[test]
fn test_back_rank_mate_detection() {
    // White Rook on e1 plays Re8#, mating the King on g8 behind its pawns
    let tags = tags_for("3r2k1/5ppp/8/8/8/8/8/4R1K1 w - - 0 1", "g1f2", "e1e8", 15, "blunder");
    assert!(tags.contains(&"Back Rank".to_string()));
}

#[test]
fn test_hanging_piece_detection() {
    // White Queen on f3 captures the undefended Black Knight on e4
    let tags = tags_for(
        "r1bqkb1r/pppp1ppp/2n5/4p3/2B1n3/5Q2/PPPP1PPP/RNB1K1NR w KQkq - 0 4",
        "a2a3",
        "f3e4",
        15,
        "blunder",
    );
    assert!(tags.contains(&"Hanging Piece".to_string()));
}

#[test]
fn test_explanation_generation() {
    let fork_tags = vec!["Fork".to_string(), "Tactical Advantage".to_string()];
    let explanation = GameAnalyzer::generate_explanation(&fork_tags, Some("Nf7+"));
    assert!(explanation.contains("Nf7+: Forks multiple enemy pieces"));

    let pin_tags = vec!["Pin".to_string()];
    let explanation = GameAnalyzer::generate_explanation(&pin_tags, None);
    assert!(explanation.contains("Pins an enemy piece"));
}

#[test]
fn tags_are_never_empty_and_never_repeat() {
    // A quiet endgame move with no motif: late, few pieces, no capture.
    let fen = "8/5k2/8/8/8/8/2K5/8 w - - 0 40";
    let tags = tags_for(fen, "c2c3", "c2d3", 40, "mistake");
    assert!(!tags.is_empty());
    let mut seen = tags.clone();
    seen.sort();
    seen.dedup();
    assert_eq!(seen.len(), tags.len());
}

#[test]
fn opening_tag_only_up_to_move_ten() {
    let early = tags_for(START_FEN, "e2e4", "d2d4", 10, "mistake");
    assert!(early.contains(&"Opening Mistake".to_string()));
    let late = tags_for(START_FEN, "e2e4", "d2d4", 11, "mistake");
    assert!(!late.contains(&"Opening Mistake".to_string()));
}

#[test]
fn missed_tactic_only_for_blunders_and_alone() {
    // Many pieces, late, no capture and no motif in the best move.
    let blunder = tags_for(START_FEN, "e2e4", "d2d4", 20, "blunder");
    assert_eq!(blunder, vec!["Missed Tactic".to_string()]);
    let mistake = tags_for(START_FEN, "e2e4", "d2d4", 20, "mistake");
    assert_eq!(mistake, vec!["Positional Advantage".to_string()]);
}

#[test]
fn unreadable_best_move_still_gets_context_tags() {
    let tags = tags_for(START_FEN, "e2e4", "zz99", 3, "inaccuracy");
    assert_eq!(tags, vec!["Opening Mistake".to_string()]);
}

#[test]
fn pgn_pieces() {
    assert_eq!(opening_from_slug("Sicilian-Defense-Najdorf-Variation"), "Sicilian Defense Najdorf Variation");
    assert_eq!(
        moves_from_text(" e4 e5  Nf3!? Nc6 Bb5+ 1/2-1/2 *"),
        vec!["e4", "e5", "Nf3", "Nc6", "Bb5+"]
    );
    let chars: Vec<char> = "[Event \"x\"]\n\n  1. e4 e5  \n2. Nf3\n".chars().collect();
    let text: String = move_text(&chars).into_iter().collect();
    assert_eq!(text, " 1. e4 e5 2. Nf3");
}

#[test]
fn extreme_centipawn_scores_pass_through() {
    assert_eq!(GameAnalyzer::score_from_side_to_move(Some(i32::MIN), None), i32::MIN);
    assert_eq!(GameAnalyzer::score_from_pov(Some(i32::MIN), None, true), i32::MIN);
}
