use spotlight::search::match_highlight::compute_match_ranges;
use spotlight::search::ranking::{apply_history_boost, build_result, sort_results, HistoryStats, LaunchStat};
use spotlight::search::types::{make_id, parse_id, ResultKind, SearchResult};

fn no_history() -> HistoryStats {
    HistoryStats { entries: Vec::new() }
}

fn result(id: &str, score: i128) -> SearchResult {
    SearchResult {
        id: id.to_string(),
        kind: ResultKind::App,
        title: id.to_string(),
        subtitle: None,
        icon: None,
        score,
        match_ranges: Vec::new(),
    }
}

#[test]
fn make_id_joins_kind_and_key() {
    assert_eq!(make_id(ResultKind::App, "firefox"), "app:firefox");
    assert_eq!(make_id(ResultKind::File, "/home/a:b.txt"), "file:/home/a:b.txt");
    assert_eq!(make_id(ResultKind::Window, ""), "window:");
}

#[test]
fn parse_id_reads_back_make_id() {
    let kinds = [
        ResultKind::App,
        ResultKind::File,
        ResultKind::Setting,
        ResultKind::Recent,
        ResultKind::Web,
        ResultKind::Bookmark,
        ResultKind::Browser,
        ResultKind::Contact,
        ResultKind::Quicklink,
        ResultKind::Snippet,
        ResultKind::Script,
        ResultKind::Clipboard,
        ResultKind::Extension,
        ResultKind::Window,
    ];
    for k in kinds {
        let id = make_id(k, "key:with:colons");
        let (kind, key) = parse_id(&id).unwrap();
        assert_eq!(kind, k);
        assert_eq!(key, "key:with:colons");
    }
}

#[test]
fn parse_id_refuses_unknown_kinds() {
    assert!(parse_id("nothing").is_none());
    assert!(parse_id("unknown:x").is_none());
    assert!(parse_id(":x").is_none());
}

#[test]
fn kind_names_round_trip() {
    assert_eq!(ResultKind::Clipboard.as_str(), "clipboard");
    assert_eq!(ResultKind::from_str("extension"), Some(ResultKind::Extension));
    assert_eq!(ResultKind::from_str("Extension"), None);
}

#[test]
fn score_mixes_match_recency_and_frequency() {
    let h = HistoryStats {
        entries: vec![
            LaunchStat { id: "app:a".to_string(), count: 4, hours_since_launch: Some(2) },
            LaunchStat { id: "app:b".to_string(), count: 50, hours_since_launch: Some(200) },
        ],
    };
    // 12 * 80 + 50 * 10 + 15 * 4
    let a = apply_history_boost(result("app:a", 0), 80, &h);
    assert_eq!(a.score, 1520);
    // 12 * 100 + 50 * 3 + 15 * 20 (count capped at 20, fuzzy capped at 100)
    let b = apply_history_boost(result("app:b", 0), 150, &h);
    assert_eq!(b.score, 1650);
    // never opened, negative fuzzy score counts as 0
    let c = apply_history_boost(result("app:c", 0), -5, &h);
    assert_eq!(c.score, 0);
    assert_eq!(h.get_count("app:b"), 50);
    assert_eq!(h.recency_boost("app:b"), 3);
    assert_eq!(h.recency_boost("app:zzz"), 0);
}

#[test]
fn more_launches_never_lower_a_score() {
    let few = HistoryStats {
        entries: vec![LaunchStat { id: "app:x".to_string(), count: 1, hours_since_launch: Some(1000) }],
    };
    let many = HistoryStats {
        entries: vec![LaunchStat { id: "app:x".to_string(), count: 9, hours_since_launch: Some(3) }],
    };
    let a = apply_history_boost(result("app:x", 0), 40, &few);
    let b = apply_history_boost(result("app:x", 0), 40, &many);
    assert!(a.score <= b.score);
    assert!(b.score <= 2000);
}

#[test]
fn build_result_highlights_first_occurrence() {
    let r = build_result(
        "app:term".to_string(),
        ResultKind::App,
        "GNOME Terminal".to_string(),
        Some("shell".to_string()),
        None,
        100,
        "term",
        &no_history(),
    );
    assert_eq!(r.score, 1200);
    assert_eq!(r.match_ranges.len(), 1);
    assert_eq!(r.match_ranges[0].start, 6);
    assert_eq!(r.match_ranges[0].end, 10);
    assert_eq!(r.subtitle.as_deref(), Some("shell"));
}

#[test]
fn highlight_counts_bytes_and_ignores_case() {
    let r = compute_match_ranges("Ação Rápida", "RÁP");
    assert_eq!(r.len(), 1);
    assert_eq!(r[0].start, 7);
    assert_eq!(r[0].end, 11);
    assert!(compute_match_ranges("abc", "   ").is_empty());
    assert!(compute_match_ranges("abc", "x").is_empty());
}

#[test]
fn sort_results_orders_by_descending_score_stably() {
    let mut v = vec![result("a", 5), result("b", 9), result("c", 5), result("d", 12), result("e", 9)];
    sort_results(&mut v);
    let ids: Vec<&str> = v.iter().map(|r| r.id.as_str()).collect();
    assert_eq!(ids, vec!["d", "b", "e", "a", "c"]);
    for w in v.windows(2) {
        assert!(w[0].score >= w[1].score);
    }
}

#[test]
fn sort_results_keeps_every_result() {
    let mut v = vec![result("a", 1), result("a", 1), result("b", 3)];
    sort_results(&mut v);
    assert_eq!(v.len(), 3);
    assert_eq!(v.iter().filter(|r| r.id == "a").count(), 2);
    let mut empty: Vec<SearchResult> = Vec::new();
    sort_results(&mut empty);
    assert!(empty.is_empty());
}
