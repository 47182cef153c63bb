use tagger::selection::{queue_plan, queue_track_id, selection_count_html, toggle_select, Selection};

fn s(x: &str) -> String {
    x.to_string()
}

#[test]
fn toggle_selects_then_unselects() {
    let mut sel = Selection::new();
    assert_eq!(toggle_select(&mut sel, s("a")), "<span id='selection-count'>1 selected</span>");
    assert!(sel.contains(&s("a")));
    assert_eq!(toggle_select(&mut sel, s("b")), "<span id='selection-count'>2 selected</span>");
    assert_eq!(toggle_select(&mut sel, s("a")), "<span id='selection-count'>1 selected</span>");
    assert!(!sel.contains(&s("a")));
    assert!(sel.contains(&s("b")));
}

#[test]
fn toggle_twice_restores_selection() {
    let mut sel = Selection::new();
    sel.insert(s("x"));
    sel.insert(s("y"));
    let before = sel.to_vec();
    sel.toggle(s("z"));
    sel.toggle(s("z"));
    assert_eq!(sel.to_vec(), before);
    sel.toggle(s("x"));
    sel.toggle(s("x"));
    assert_eq!(sel.len(), 2);
    assert!(sel.contains(&s("x")) && sel.contains(&s("y")));
}

#[test]
fn insert_and_remove_report_membership() {
    let mut sel = Selection::new();
    assert!(sel.insert(s("a")));
    assert!(!sel.insert(s("a")));
    assert_eq!(sel.len(), 1);
    assert!(sel.remove(&s("a")));
    assert!(!sel.remove(&s("a")));
    assert_eq!(sel.len(), 0);
}

#[test]
fn clear_empties_selection() {
    let mut sel = Selection::new();
    sel.insert(s("a"));
    sel.insert(s("b"));
    sel.clear();
    assert_eq!(sel.len(), 0);
    assert!(sel.to_vec().is_empty());
}

#[test]
fn count_html_writes_number() {
    assert_eq!(selection_count_html(0), "<span id='selection-count'>0 selected</span>");
    assert_eq!(selection_count_html(42), "<span id='selection-count'>42 selected</span>");
}

#[test]
fn queue_track_id_strips_uri_prefix() {
    assert_eq!(queue_track_id(&s("spotify:track:4y4VO05kYgUTo2bzbox1an")), "4y4VO05kYgUTo2bzbox1an");
    assert_eq!(queue_track_id(&s("  spotify:track:abc \n")), "abc");
}

#[test]
fn queue_track_id_keeps_other_entries_as_they_stand() {
    assert_eq!(queue_track_id(&s("abc")), "abc");
    assert_eq!(queue_track_id(&s(" abc ")), " abc ");
    assert_eq!(queue_track_id(&s("spotify:album:abc")), "spotify:album:abc");
}

#[test]
fn queue_plan_skips_invalid_ids() {
    let mut sel = Selection::new();
    sel.insert(s("spotify:track:abc123"));
    sel.insert(s("not a track!"));
    sel.insert(s("spotify:track:"));
    sel.insert(s(" xyz "));
    let plan = queue_plan(&sel);
    assert_eq!(
        plan,
        vec![Ok(s("abc123")), Err(s("not a track!")), Ok(s("")), Err(s(" xyz "))]
    );
}
