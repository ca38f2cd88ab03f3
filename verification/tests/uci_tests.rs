use grandmaster_recall::uci::{read_engine_line, EngineLine, EvalCollector};

#[test]
fn engine_info_lines_are_read() {
    match read_engine_line("info depth 10 seldepth 14 multipv 2 score cp 35 nodes 1000 pv e2e4 e7e5 g1f3") {
        EngineLine::Info { pv_index, score_cp, mate_in, pv } => {
            assert_eq!(pv_index, 2);
            assert_eq!(score_cp, Some(35));
            assert_eq!(mate_in, None);
            assert_eq!(pv, vec!["e2e4".to_string(), "e7e5".to_string(), "g1f3".to_string()]);
        }
        _ => panic!("expected an info line"),
    }
    match read_engine_line("  info depth 5 score mate -2 pv a1a2\n") {
        EngineLine::Info { pv_index, score_cp, mate_in, pv } => {
            assert_eq!(pv_index, 1);
            assert_eq!(score_cp, None);
            assert_eq!(mate_in, Some(-2));
            assert_eq!(pv, vec!["a1a2".to_string()]);
        }
        _ => panic!("expected an info line"),
    }
}

#[test]
fn engine_best_move_and_other_lines() {
    assert!(matches!(read_engine_line("bestmove e2e4 ponder e7e5"), EngineLine::BestMove(Some(m)) if m == "e2e4"));
    assert!(matches!(read_engine_line("bestmove "), EngineLine::Other));
    assert!(matches!(read_engine_line("readyok"), EngineLine::Other));
    assert!(matches!(read_engine_line("info depth 3 score cp 10"), EngineLine::Other));
    assert!(matches!(read_engine_line("info string pv"), EngineLine::Other));
}

#[test]
fn collector_gathers_lines_in_index_order() {
    let mut c = EvalCollector::new();
    assert_eq!(c.feed_line("info depth 8 multipv 2 score cp 10 pv d2d4 d7d5"), None);
    assert_eq!(c.feed_line("info depth 8 multipv 1 score cp 40 pv e2e4 e7e5"), None);
    assert_eq!(c.feed_line("info depth 9 multipv 1 score mate 3 pv g1f3"), None);
    assert_eq!(c.feed_line("readyok"), None);
    let best = c.feed_line("bestmove g1f3").unwrap();
    assert_eq!(best, "g1f3");
    let r = c.finish("startfen", 9, best);
    assert_eq!(r.fen, "startfen");
    assert_eq!(r.depth, 9);
    assert_eq!(r.best_move, "g1f3");
    assert_eq!(r.score_cp, None);
    assert_eq!(r.mate_in, Some(3));
    assert_eq!(r.lines.len(), 2);
    assert_eq!(r.lines[0].uci, "g1f3");
    assert_eq!(r.lines[0].mate_in, Some(3));
    assert_eq!(r.lines[1].uci, "d2d4");
    assert_eq!(r.lines[1].score_cp, Some(10));
    assert_eq!(r.lines[1].pv, vec!["d2d4".to_string(), "d7d5".to_string()]);
}

#[test]
fn collector_without_best_move_answers_empty() {
    let mut c = EvalCollector::new();
    assert_eq!(c.feed_line("bestmove (none)"), Some("(none)".to_string()));
    let mut c = EvalCollector::new();
    assert_eq!(c.feed_line("bestmove"), None);
}
