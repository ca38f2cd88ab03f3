use grandmaster_recall::analyzer::{GameAnalyzer, Severity};
use grandmaster_recall::board::{Color, Position, Role};
use grandmaster_recall::chess_io::move_from_uci;
use grandmaster_recall::tactics::PawnMotif;

fn after(fen: &str, uci: &str) -> (Position, grandmaster_recall::board::Move, Position) {
    let before = Position::from_fen(fen).unwrap();
    let (m, fen_after) = move_from_uci(fen, uci).unwrap();
    (before, m, Position::from_fen(&fen_after).unwrap())
}

#[test]
fn piece_values() {
    assert_eq!(GameAnalyzer::piece_value(Role::Pawn), 100);
    assert_eq!(GameAnalyzer::piece_value(Role::Knight), 300);
    assert_eq!(GameAnalyzer::piece_value(Role::Bishop), 300);
    assert_eq!(GameAnalyzer::piece_value(Role::Rook), 500);
    assert_eq!(GameAnalyzer::piece_value(Role::Queen), 900);
    assert_eq!(GameAnalyzer::piece_value(Role::King), 10000);
}

#[test]
fn fork_found_directly() {
    let (_, m, a) = after("r3k3/8/4N3/8/8/8/8/4K3 w - - 0 1", "e6c7");
    assert!(GameAnalyzer::detect_fork(&a.board, &m, Color::White));
    let (_, m, a) = after("r3k3/8/4N3/8/8/8/8/4K3 w - - 0 1", "e6g5");
    assert!(!GameAnalyzer::detect_fork(&a.board, &m, Color::White));
}

#[test]
fn pin_and_skewer_found_directly() {
    let (_, m, a) = after("4k3/8/4n3/8/8/8/8/R5K1 w - - 0 1", "a1e1");
    assert!(GameAnalyzer::detect_pin(&a.board, &m, Color::White));
    let (_, m, a) = after("4q3/4k3/8/8/8/8/8/R5K1 w - - 0 1", "a1e1");
    assert!(GameAnalyzer::detect_skewer(&a.board, &m, Color::White));
    assert!(!GameAnalyzer::detect_pin(&a.board, &m, Color::White));
}

#[test]
fn discovered_check_found_directly() {
    let (b, m, a) = after("4k3/8/8/8/4N3/8/8/4R1K1 w - - 0 1", "e4c3");
    let (attack, check) = GameAnalyzer::detect_discovered_attack(&b, &a, &m, Color::White);
    // The rook's new line reaches the king: an attack that is also a check.
    assert!(check);
    assert!(attack);
    assert!(!GameAnalyzer::detect_double_check(&a));
}

#[test]
fn mates_found_directly() {
    let (_, m, a) = after("6rk/6pp/7N/8/8/8/8/7K w - - 0 1", "h6f7");
    assert!(GameAnalyzer::detect_smothered_mate(&a, &m, Color::White));
    let (_, m, a) = after("3r2k1/5ppp/8/8/8/8/8/4R1K1 w - - 0 1", "e1e8");
    assert!(!a.is_checkmate || GameAnalyzer::detect_back_rank(&a, &m, Color::White));
}

#[test]
fn hanging_piece_found_directly() {
    let (b, m, _) = after("r1bqkb1r/pppp1ppp/2n5/4p3/2B1n3/5Q2/PPPP1PPP/RNB1K1NR w KQkq - 0 4", "f3e4");
    assert!(GameAnalyzer::detect_hanging_piece(&b, &m, Color::White));
}

#[test]
fn pawn_motifs() {
    let (_, m, _) = after("8/4P3/8/8/8/8/k7/4K3 w - - 0 1", "e7e8q");
    assert_eq!(GameAnalyzer::detect_pawn_motif(&m, Color::White), Some(PawnMotif::Promotion));
    let (_, m, _) = after("8/8/4P3/8/8/8/k7/4K3 w - - 0 1", "e6e7");
    assert_eq!(GameAnalyzer::detect_pawn_motif(&m, Color::White), Some(PawnMotif::AdvancedPassedPawn));
    let (_, m, _) = after("8/8/8/4P3/8/8/k7/4K3 w - - 0 1", "e5e6");
    assert_eq!(GameAnalyzer::detect_pawn_motif(&m, Color::White), None);
    assert_eq!(GameAnalyzer::detect_passed_pawn_or_promotion(&m, Color::White), None);
}

#[test]
fn severity_grades() {
    assert_eq!(GameAnalyzer::classify_severity(0, -250), Some(Severity::Blunder));
    assert_eq!(GameAnalyzer::classify_severity(-100, -450), Some(Severity::Blunder));
    assert_eq!(GameAnalyzer::classify_severity(100, -20), Some(Severity::Mistake));
    assert_eq!(GameAnalyzer::classify_severity(100, 40), Some(Severity::Inaccuracy));
    assert_eq!(GameAnalyzer::classify_severity(100, 41), None);
    assert_eq!(Severity::Mistake.label(), "mistake");
}

#[test]
fn scores_after_a_move() {
    assert_eq!(GameAnalyzer::eval_after_move(true, false, Some(-50), None), 10000);
    assert_eq!(GameAnalyzer::eval_after_move(false, true, Some(-50), None), 0);
    assert_eq!(GameAnalyzer::eval_after_move(false, false, Some(-50), None), 50);
    assert_eq!(GameAnalyzer::eval_after_move(false, false, None, Some(3)), -9700);
}

#[test]
fn pov_scores_are_opposite_for_the_two_sides() {
    for (cp, mate) in [(Some(75), None), (None, Some(4)), (None, Some(-2)), (None, None)] {
        assert_eq!(
            GameAnalyzer::score_from_pov(cp, mate, true),
            -GameAnalyzer::score_from_pov(cp, mate, false)
        );
    }
}

#[test]
fn sooner_mates_score_higher() {
    assert!(GameAnalyzer::score_from_side_to_move(None, Some(1)) > GameAnalyzer::score_from_side_to_move(None, Some(2)));
    assert!(GameAnalyzer::score_from_side_to_move(None, Some(-3)) > GameAnalyzer::score_from_side_to_move(None, Some(-1)));
    assert!(GameAnalyzer::score_from_side_to_move(None, Some(40)) > GameAnalyzer::score_from_side_to_move(Some(3000), None));
}
