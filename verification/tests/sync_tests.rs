use grandmaster_recall::models::{ChessComGame, ChessComPlayer, DetectedPuzzle, SyncRequest};
use grandmaster_recall::sync::{
    collect_games, game_label, game_qualifies, import_may_start, is_busy, mark_analyzing,
    mark_completed, mark_failed, mark_idle_with_error, mark_progress, needs_refill, plan_game,
    recent_archives, refill_reached, status_fetching, status_idle, stored_lists, sync_settings,
    start_import, user_side, ImportRun, RunAction, RunEvent,
};

fn player(name: &str, result: &str) -> ChessComPlayer {
    ChessComPlayer { username: name.to_string(), rating: Some(1500), result: result.to_string() }
}

fn game(url: &str, time_class: &str, rules: &str, pgn: Option<&str>) -> ChessComGame {
    ChessComGame {
        url: url.to_string(),
        pgn: pgn.map(|p| p.to_string()),
        time_class: time_class.to_string(),
        rules: rules.to_string(),
        white: player("Alice", "win"),
        black: player("Bob", "resigned"),
        end_time: 1_700_000_000,
    }
}

fn strings(v: &[&str]) -> Vec<String> {
    v.iter().map(|s| s.to_string()).collect()
}

#[test]
fn recent_archives_newest_first() {
    let a = strings(&["2024/01", "2024/02", "2024/03"]);
    assert_eq!(recent_archives(a.clone(), 2), strings(&["2024/03", "2024/02"]));
    assert_eq!(recent_archives(a.clone(), 5), strings(&["2024/03", "2024/02", "2024/01"]));
    assert!(recent_archives(a, 0).is_empty());
}

#[test]
fn qualifying_games() {
    let classes = strings(&["rapid", "blitz"]);
    assert!(game_qualifies(&game("a", "Blitz", "chess", Some("1. e4")), &classes));
    assert!(!game_qualifies(&game("b", "bullet", "chess", Some("1. e4")), &classes));
    assert!(!game_qualifies(&game("c", "rapid", "chess960", Some("1. e4")), &classes));
    assert!(!game_qualifies(&game("d", "rapid", "chess", None), &classes));
    assert!(game_qualifies(&game("e", "bullet", "chess", Some("1. e4")), &Vec::new()));
}

#[test]
fn collecting_takes_the_latest_qualifying_games_up_to_the_limit() {
    let classes = strings(&["rapid"]);
    let archive = vec![
        game("g1", "rapid", "chess", Some("1. e4")),
        game("g2", "blitz", "chess", Some("1. e4")),
        game("g3", "rapid", "chess", Some("1. d4")),
        game("g4", "rapid", "chess", Some("1. c4")),
    ];
    let mut collected = Vec::new();
    let full = collect_games(&mut collected, archive, &classes, 2);
    assert!(full);
    let urls: Vec<&str> = collected.iter().map(|g| g.url.as_str()).collect();
    assert_eq!(urls, vec!["g4", "g3"]);
}

#[test]
fn collecting_stops_short_when_games_run_out() {
    let classes = strings(&["rapid"]);
    let mut collected = Vec::new();
    let full = collect_games(&mut collected, vec![game("g1", "rapid", "chess", Some("1. e4"))], &classes, 3);
    assert!(!full);
    assert_eq!(collected.len(), 1);
    let full = collect_games(&mut collected, vec![game("g2", "blitz", "chess", Some("1. e4"))], &classes, 3);
    assert!(!full);
    assert_eq!(collected.len(), 1);
}

#[test]
fn import_settings_defaults() {
    let req = SyncRequest { username: "x".to_string(), time_classes: None, max_games: None, months_back: None, engine_depth: None };
    let (classes, max_games, months_back, depth) = sync_settings(req);
    assert_eq!(classes, strings(&["rapid", "blitz"]));
    assert_eq!((max_games, months_back, depth), (30, 2, 14));
    let req = SyncRequest {
        username: "x".to_string(),
        time_classes: Some(strings(&["daily"])),
        max_games: Some(3),
        months_back: Some(1),
        engine_depth: Some(18),
    };
    let (classes, max_games, months_back, depth) = sync_settings(req);
    assert_eq!(classes, strings(&["daily"]));
    assert_eq!((max_games, months_back, depth), (3, 1, 18));
}

#[test]
fn import_progress_record() {
    let mut st = status_fetching("Alice".to_string());
    assert_eq!(st.state, "fetching_games");
    assert!(is_busy(&st));
    assert!(!import_may_start(&Some(st.clone())));
    mark_analyzing(&mut st, 4);
    assert_eq!(st.state, "analyzing");
    assert_eq!(st.total_games, 4);
    mark_progress(&mut st, 1, game_label("Bob", "rapid"), 3);
    assert_eq!(st.processed_games, 2);
    assert_eq!(st.current_game, Some("vs Bob (rapid)".to_string()));
    assert_eq!(st.puzzles_found, 3);
    mark_completed(&mut st, 4, 5);
    assert_eq!(st.state, "completed");
    assert_eq!(st.processed_games, 4);
    assert_eq!(st.puzzles_found, 5);
    assert_eq!(st.current_game, None);
    assert!(!is_busy(&st));
    assert!(import_may_start(&Some(st.clone())));
    assert!(import_may_start(&None));
    mark_failed(&mut st, "boom".to_string());
    assert_eq!(st.state, "failed");
    assert_eq!(st.error, Some("boom".to_string()));
}

#[test]
fn refill_gives_up_back_to_idle() {
    let mut st = status_fetching("Alice".to_string());
    mark_idle_with_error(&mut st, Some("HTTP 500".to_string()));
    assert_eq!(st.state, "idle");
    assert_eq!(st.error, Some("HTTP 500".to_string()));
    mark_idle_with_error(&mut st, None);
    assert_eq!(st.error, Some("HTTP 500".to_string()));
    let idle = status_idle("Carol".to_string());
    assert_eq!(idle.state, "idle");
    assert_eq!(idle.username, "Carol");
}

#[test]
fn refill_watermarks() {
    assert!(!needs_refill(8, 16));
    assert!(needs_refill(7, 100));
    assert!(needs_refill(20, 15));
    assert!(refill_reached(16));
    assert!(!refill_reached(15));
}

#[test]
fn planning_a_game() {
    let g = game("u", "blitz", "chess", Some("1. e4 e5"));
    assert!(user_side("ALICE", "alice"));
    let plan = plan_game(&g, "alice").unwrap();
    assert!(plan.user_is_white);
    assert_eq!(plan.user_color, "white");
    assert_eq!(plan.result, "win");
    assert_eq!(plan.label, "vs Bob (blitz)");
    assert_eq!(plan.pgn, "1. e4 e5");
    let plan = plan_game(&g, "bob").unwrap();
    assert!(!plan.user_is_white);
    assert_eq!(plan.user_color, "black");
    assert_eq!(plan.result, "resigned");
    assert_eq!(plan.label, "vs Alice (blitz)");
    assert!(plan_game(&game("v", "blitz", "chess", None), "bob").is_none());
}

#[test]
fn puzzle_lists_are_stored_as_json() {
    let p = DetectedPuzzle {
        initial_fen: String::new(),
        move_number: 12,
        player_color: "white".to_string(),
        blunder_move_san: "Nxd4".to_string(),
        blunder_move_uci: "f3d4".to_string(),
        best_move_san: "Qxd4".to_string(),
        best_move_uci: "d1d4".to_string(),
        eval_before: 100,
        eval_after_blunder: -200,
        eval_after_best: 100,
        continuation_uci: strings(&["d1d4"]),
        blunder_continuation_uci: Vec::new(),
        tactical_tags: strings(&["Fork"]),
        blunder_severity: "blunder".to_string(),
        opening_name: Some("Sicilian Defense".to_string()),
    };
    let s = stored_lists(&p);
    assert_eq!(s.continuation_json, "[\"d1d4\"]");
    assert_eq!(s.blunder_continuation_json, "[]");
    assert_eq!(s.tags_json, "[\"Fork\"]");
}

#[test]
fn a_running_import_is_left_alone() {
    let mut running = status_fetching("Alice".to_string());
    mark_analyzing(&mut running, 3);
    let (record, starts) = start_import(Some(running.clone()), "Alice".to_string());
    assert!(!starts);
    assert_eq!(record.state, "analyzing");
    assert_eq!(record.total_games, 3);
    let mut done = running.clone();
    mark_completed(&mut done, 3, 1);
    let (record, starts) = start_import(Some(done), "Alice".to_string());
    assert!(starts);
    assert_eq!(record.state, "fetching_games");
    assert_eq!(record.total_games, 0);
    let (record, starts) = start_import(None, "Bob".to_string());
    assert!(starts);
    assert_eq!(record.username, "Bob");
}

#[test]
fn a_manual_run_ends_completed() {
    let mut run = ImportRun::begin(false, "Alice".to_string(), 0);
    assert_eq!(run.step(RunEvent::Fetched(2)), RunAction::Go);
    assert_eq!(run.status.state, "analyzing");
    assert_eq!(run.step(RunEvent::GameStarted(0, "vs Bob (rapid)".to_string())), RunAction::Go);
    run.step(RunEvent::PuzzleStored);
    run.step(RunEvent::PuzzleStored);
    assert_eq!(run.status.puzzles_found, 0);
    assert_eq!(run.step(RunEvent::GameDone), RunAction::Go);
    run.step(RunEvent::GameStarted(1, "vs Carol (blitz)".to_string()));
    assert_eq!(run.status.puzzles_found, 2);
    assert_eq!(run.status.processed_games, 2);
    assert_eq!(run.step(RunEvent::Finished), RunAction::Stop);
    assert!(run.over);
    assert_eq!(run.status.state, "completed");
    assert_eq!(run.status.processed_games, 2);
    assert_eq!(run.status.puzzles_found, 2);
    assert_eq!(run.status.current_game, None);
}

#[test]
fn a_manual_run_fails_on_fetch_errors() {
    let mut run = ImportRun::begin(false, "Alice".to_string(), 0);
    assert_eq!(run.step(RunEvent::FetchFailed("HTTP 404".to_string())), RunAction::Stop);
    assert_eq!(run.status.state, "failed");
    assert_eq!(run.status.error, Some("HTTP 404".to_string()));
    let mut run = ImportRun::begin(false, "Alice".to_string(), 0);
    run.step(RunEvent::UserFailed("db".to_string()));
    assert_eq!(run.status.state, "failed");
}

#[test]
fn a_refill_stops_at_the_high_watermark() {
    let mut run = ImportRun::begin(true, "Alice".to_string(), 14);
    assert_eq!(run.step(RunEvent::Fetched(3)), RunAction::Go);
    run.step(RunEvent::GameStarted(0, "vs Bob (rapid)".to_string()));
    run.step(RunEvent::PuzzleStored);
    assert_eq!(run.status.puzzles_found, 1);
    assert_eq!(run.step(RunEvent::GameDone), RunAction::Go);
    run.step(RunEvent::PuzzleStored);
    assert_eq!(run.current_due, 16);
    assert_eq!(run.step(RunEvent::GameDone), RunAction::Stop);
    run.step(RunEvent::Finished);
    assert_eq!(run.status.state, "completed");
    assert_eq!(run.status.processed_games, 3);
    assert_eq!(run.status.puzzles_found, 2);
}

#[test]
fn a_refill_with_nothing_fetched_goes_idle() {
    let mut run = ImportRun::begin(true, "Alice".to_string(), 0);
    assert_eq!(run.step(RunEvent::Fetched(0)), RunAction::Stop);
    assert_eq!(run.status.state, "idle");
    assert_eq!(run.status.error, None);
    let mut run = ImportRun::begin(true, "Alice".to_string(), 0);
    run.step(RunEvent::FetchFailed("HTTP 500".to_string()));
    assert_eq!(run.status.state, "idle");
    assert_eq!(run.status.error, Some("HTTP 500".to_string()));
}
