use grandmaster_recall::json::store_list;
use grandmaster_recall::stats::{
    severity_counts, tag_breakdown, total_reviews, SeverityRow, TagRow,
};

fn sev(label: &str, count: i64) -> SeverityRow {
    SeverityRow { severity: label.to_string(), count }
}

fn row(tags_json: &str, solved: i64, failed: i64) -> TagRow {
    TagRow { tags_json: tags_json.to_string(), times_solved: solved, times_failed: failed }
}

#[test]
fn severity_counts_read_each_group() {
    let rows = vec![sev("mistake", 4), sev("blunder", 7), sev("inaccuracy", 2), sev("other", 99)];
    let c = severity_counts(&rows);
    assert_eq!(c.blunders, 7);
    assert_eq!(c.mistakes, 4);
    assert_eq!(c.inaccuracies, 2);
}

#[test]
fn severity_counts_default_to_zero() {
    let c = severity_counts(&vec![sev("blunder", 3)]);
    assert_eq!(c.blunders, 3);
    assert_eq!(c.mistakes, 0);
    assert_eq!(c.inaccuracies, 0);
    let c = severity_counts(&Vec::new());
    assert_eq!((c.blunders, c.mistakes, c.inaccuracies), (0, 0, 0));
}

#[test]
fn tag_breakdown_sums_and_orders_by_count() {
    let rows = vec![
        row("[\"Fork\",\"Tactical Trade\"]", 2, 1),
        row("[\"Pin\"]", 0, 3),
        row("[\"Fork\"]", 1, 0),
        row("not json", 5, 5),
        row("[\"Pin\",\"Fork\"]", 4, 4),
    ];
    let t = tag_breakdown(&rows).unwrap();
    assert_eq!(t.len(), 3);
    assert_eq!(t[0].tag, "Fork");
    assert_eq!((t[0].count, t[0].times_solved, t[0].times_failed), (3, 7, 5));
    assert_eq!(t[1].tag, "Pin");
    assert_eq!((t[1].count, t[1].times_solved, t[1].times_failed), (2, 4, 7));
    assert_eq!(t[2].tag, "Tactical Trade");
    assert_eq!((t[2].count, t[2].times_solved, t[2].times_failed), (1, 2, 1));
}

#[test]
fn tag_breakdown_keeps_first_seen_order_among_equal_counts() {
    let rows = vec![row("[\"Skewer\"]", 1, 0), row("[\"Back Rank\"]", 0, 1)];
    let t = tag_breakdown(&rows).unwrap();
    assert_eq!(t[0].tag, "Skewer");
    assert_eq!(t[1].tag, "Back Rank");
}

#[test]
fn tag_breakdown_of_nothing_is_empty() {
    assert!(tag_breakdown(&Vec::new()).unwrap().is_empty());
    assert!(tag_breakdown(&vec![row("{}", 1, 1), row("[1, 2]", 1, 1)]).unwrap().is_empty());
}

#[test]
fn tag_breakdown_refuses_overflowing_totals() {
    let rows = vec![row("[\"Fork\"]", i64::MAX, 0), row("[\"Fork\"]", 1, 0)];
    assert!(tag_breakdown(&rows).is_none());
}

#[test]
fn stored_list_reads_back() {
    let tags = vec!["Fork".to_string(), "Pin".to_string()];
    let text = store_list(&tags);
    assert_eq!(text, "[\"Fork\",\"Pin\"]");
    let rows = vec![row(&text, 1, 0)];
    let t = tag_breakdown(&rows).unwrap();
    assert_eq!(t.len(), 2);
    assert_eq!(t[0].tag, "Fork");
    assert_eq!(t[1].tag, "Pin");
    assert_eq!(store_list(&Vec::new()), "[]");
}

#[test]
fn total_reviews_adds() {
    assert_eq!(total_reviews(12, 30), 42);
}
