use tagger::listing::{
    fetch_tracks_paged, last_sync_label, list_tracks, paged_query, plan_track_query, TrackQuery, PAGE_SIZE,
    PAGE_TAIL, TAG_FILTER, TITLE_SEARCH, TRACKS_SELECT,
};
use tagger::models::{FilterQuery, TrackDisplay};
use tagger::selection::Selection;

fn filter(tag: Option<&str>, q: Option<&str>, page: Option<i64>) -> FilterQuery {
    FilterQuery { tag: tag.map(|s| s.to_string()), q: q.map(|s| s.to_string()), page }
}

fn tracks(n: usize) -> Vec<TrackDisplay> {
    (0..n)
        .map(|i| TrackDisplay {
            id: format!("id{}", i),
            title: format!("t{}", i),
            artist: "a".to_string(),
            tags: vec![],
        })
        .collect()
}

#[test]
fn search_wins_over_tag() {
    assert_eq!(
        plan_track_query(&filter(Some("rock"), Some("love"), Some(3))),
        TrackQuery::ByTitle("love".to_string())
    );
}

#[test]
fn page_query_asks_one_more_than_a_page() {
    assert_eq!(
        plan_track_query(&filter(Some("rock"), None, None)),
        TrackQuery::Paged { tag: Some("rock".to_string()), limit: 51, offset: 0 }
    );
    assert_eq!(
        plan_track_query(&filter(None, None, Some(2))),
        TrackQuery::Paged { tag: None, limit: 51, offset: 100 }
    );
}

#[test]
fn paged_query_offset_and_text() {
    let q = fetch_tracks_paged(Some("rock".to_string()), 2, 50);
    assert_eq!(q.offset, 100);
    assert_eq!(q.limit, 50);
    assert_eq!(q.tag, Some("rock".to_string()));
    assert_eq!(q.sql, format!("{}{}{}", TRACKS_SELECT, TAG_FILTER, PAGE_TAIL));
    let all = fetch_tracks_paged(None, 0, 50);
    assert_eq!(all.offset, 0);
    assert_eq!(all.limit, 50);
    assert_eq!(all.sql, format!("{}{}", TRACKS_SELECT, PAGE_TAIL));
    assert!(!all.sql.contains("EXISTS"));
    let w = paged_query(None, 51, 150);
    assert_eq!((w.limit, w.offset), (51, 150));
    assert_eq!(w.sql, all.sql);
}

#[test]
fn paged_query_accepts_largest_page_size() {
    let q = fetch_tracks_paged(None, 0, i64::MAX);
    assert_eq!((q.limit, q.offset), (i64::MAX, 0));
}

#[test]
fn consecutive_pages_do_not_overlap() {
    let all = tracks(120);
    let mut seen: Vec<TrackDisplay> = Vec::new();
    for page in 0..4 {
        let q = fetch_tracks_paged(None, page, 50);
        let from = (q.offset as usize).min(all.len());
        let to = ((q.offset + q.limit) as usize).min(all.len());
        seen.extend_from_slice(&all[from..to]);
    }
    assert_eq!(seen, all);
}

#[test]
fn tag_lists_are_read_escaped() {
    assert!(TRACKS_SELECT.contains(r"replace(replace(tg.name, '\', '\\'), ',', '\,')"));
    assert!(TITLE_SEARCH.contains(r"replace(replace(tg.name, '\', '\\'), ',', '\,')"));
}

#[test]
fn page_one_shows_tracks_fifty_to_ninety_nine() {
    let all = tracks(120);
    let q = match plan_track_query(&filter(None, None, Some(1))) {
        TrackQuery::Paged { limit, offset, .. } => (limit, offset),
        other => panic!("unexpected {:?}", other),
    };
    let rows: Vec<TrackDisplay> = all[q.1 as usize..(q.1 + q.0) as usize].to_vec();
    let sel = Selection::new();
    let page = list_tracks(filter(None, None, Some(1)), rows, vec![], None, &sel);
    assert_eq!(page.tracks, all[50..100].to_vec());
    assert!(page.has_next);
}

#[test]
fn last_page_has_no_next() {
    let all = tracks(120);
    let rows: Vec<TrackDisplay> = all[100..].to_vec();
    let sel = Selection::new();
    let page = list_tracks(filter(None, None, Some(2)), rows, vec![], None, &sel);
    assert_eq!(page.tracks, all[100..120].to_vec());
    assert!(!page.has_next);
}

#[test]
fn last_sync_label_defaults_to_never() {
    assert_eq!(last_sync_label(None), "Never");
    assert_eq!(last_sync_label(Some("2024-01-01 10:00:00".to_string())), "2024-01-01 10:00:00");
}

#[test]
fn listing_has_next_only_beyond_a_page() {
    let sel = Selection::new();
    let full = list_tracks(filter(None, None, Some(1)), tracks(51), vec![], None, &sel);
    assert!(full.has_next);
    assert_eq!(full.current_page, 1);
    assert_eq!(full.tracks, tracks(50));
    let exact = list_tracks(filter(None, None, None), tracks(50), vec![], None, &sel);
    assert!(!exact.has_next);
    assert_eq!(exact.current_page, 0);
    assert_eq!(PAGE_SIZE, 50);
}

#[test]
fn listing_search_has_no_next_page() {
    let sel = Selection::new();
    let found = list_tracks(filter(None, Some("x"), None), tracks(60), vec![], None, &sel);
    assert!(!found.has_next);
    assert_eq!(found.tracks.len(), 60);
    assert_eq!(found.current_filter, Some("x".to_string()));
}

#[test]
fn listing_shows_tag_filter_and_selection() {
    let mut sel = Selection::new();
    sel.insert("id1".to_string());
    let page = list_tracks(
        filter(Some("rock"), None, None),
        tracks(2),
        vec!["jazz".to_string(), "rock".to_string()],
        Some("yesterday".to_string()),
        &sel,
    );
    assert_eq!(page.current_filter, Some("rock".to_string()));
    assert_eq!(page.all_tags, vec!["jazz".to_string(), "rock".to_string()]);
    assert_eq!(page.last_sync, "yesterday");
    assert_eq!(page.selected_ids, vec!["id1".to_string()]);
}
