use grandmaster_recall::models::{AllPuzzlesQuery, EngineEvalRequest, ReviewQuery, SolveAttemptRequest};
use grandmaster_recall::requests::{
    clean_username, engine_limits, listing_page, review_limit, solve_quality, status_key,
};

fn attempt(success: bool, hints: i32, ms: i64, quality: Option<u8>) -> SolveAttemptRequest {
    SolveAttemptRequest { user_id: 1, success, hints_used: hints, time_taken_ms: ms, quality }
}

#[test]
fn usernames_are_trimmed_and_must_not_be_empty() {
    assert_eq!(clean_username("  Hikaru \n"), Some("Hikaru".to_string()));
    assert_eq!(clean_username("   "), None);
    assert_eq!(clean_username(""), None);
    assert_eq!(clean_username("\u{3000}Hikaru\u{a0}\u{2003}"), Some("Hikaru".to_string()));
    assert_eq!(clean_username("\u{85}\u{202f}"), None);
}

#[test]
fn status_keys_are_trimmed_lower_case() {
    assert_eq!(status_key(" MagnusCarlsen "), "magnuscarlsen");
}

#[test]
fn solve_quality_prefers_the_client_grade_capped_at_five() {
    assert_eq!(solve_quality(&attempt(true, 0, 1000, Some(2))), 2);
    assert_eq!(solve_quality(&attempt(true, 0, 1000, Some(9))), 5);
    assert_eq!(solve_quality(&attempt(true, 0, 1000, None)), 5);
    assert_eq!(solve_quality(&attempt(false, 3, 1000, None)), 0);
}

#[test]
fn engine_limits_default_and_cap() {
    let r = EngineEvalRequest { fen: String::new(), depth: None, multi_pv: None };
    assert_eq!(engine_limits(&r), (14, 3));
    let r = EngineEvalRequest { fen: String::new(), depth: Some(40), multi_pv: Some(9) };
    assert_eq!(engine_limits(&r), (24, 5));
    let r = EngineEvalRequest { fen: String::new(), depth: Some(8), multi_pv: Some(1) };
    assert_eq!(engine_limits(&r), (8, 1));
}

#[test]
fn listing_defaults() {
    assert_eq!(review_limit(&ReviewQuery { user_id: 1, limit: None }), 20);
    assert_eq!(review_limit(&ReviewQuery { user_id: 1, limit: Some(5) }), 5);
    let q = AllPuzzlesQuery { user_id: 1, limit: None, offset: None, severity: None };
    assert_eq!(listing_page(&q), (50, 0));
    let q = AllPuzzlesQuery { user_id: 1, limit: Some(10), offset: Some(30), severity: None };
    assert_eq!(listing_page(&q), (10, 30));
}
