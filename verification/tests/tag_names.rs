use tagger::tags::{new_tag_name, normalize_tag_name, parse_tag_list, split_tags, tag_to_create, track_display};

#[test]
fn normalize_trims_and_lowercases() {
    assert_eq!(normalize_tag_name("  Rock "), "rock");
    assert_eq!(normalize_tag_name("\tLo-Fi Beats\n"), "lo-fi beats");
}

#[test]
fn normalize_lowercases_beyond_ascii() {
    assert_eq!(normalize_tag_name("ÉTÉ"), "été");
}

#[test]
fn tag_to_create_refuses_empty_name() {
    assert_eq!(tag_to_create(String::new()), None);
    assert_eq!(tag_to_create("rock".to_string()), Some("rock".to_string()));
}

#[test]
fn new_tag_name_of_blank_is_none() {
    assert_eq!(new_tag_name("   "), None);
    assert_eq!(new_tag_name(""), None);
}

#[test]
fn new_tag_name_accepts_commas() {
    assert_eq!(new_tag_name(" Rock,Pop "), Some("rock,pop".to_string()));
    assert_eq!(tag_to_create("a,b".to_string()), Some("a,b".to_string()));
}

fn encode(names: &[String]) -> String {
    names
        .iter()
        .map(|n| n.replace('\\', "\\\\").replace(',', "\\,"))
        .collect::<Vec<_>>()
        .join(",")
}

#[test]
fn created_tags_read_back_from_the_listing() {
    let names: Vec<String> = ["Rock ", " Lo-Fi", "rock,pop", r"back\slash"]
        .iter()
        .filter_map(|n| new_tag_name(n))
        .collect();
    assert_eq!(names.len(), 4);
    let t = track_display("id".to_string(), "T".to_string(), "A".to_string(), Some(encode(&names)));
    assert_eq!(t.tags, names);
}

#[test]
fn split_tags_reads_escapes() {
    assert_eq!(split_tags(r"rock\,pop,jazz"), vec!["rock,pop".to_string(), "jazz".to_string()]);
    assert_eq!(split_tags(r"a\\b"), vec![r"a\b".to_string()]);
    assert_eq!(split_tags(r"end\"), vec![r"end\".to_string()]);
}

#[test]
fn new_tag_name_normalizes() {
    assert_eq!(new_tag_name(" Chill "), Some("chill".to_string()));
}

#[test]
fn split_tags_drops_empty_pieces() {
    assert_eq!(split_tags("rock,,jazz,"), vec!["rock".to_string(), "jazz".to_string()]);
    assert_eq!(split_tags(",,"), Vec::<String>::new());
    assert_eq!(split_tags(""), Vec::<String>::new());
    assert_eq!(split_tags("solo"), vec!["solo".to_string()]);
}

#[test]
fn split_tags_keeps_spaces_inside_pieces() {
    assert_eq!(split_tags(" a , b"), vec![" a ".to_string(), " b".to_string()]);
}

#[test]
fn parse_tag_list_of_none_is_empty() {
    assert_eq!(parse_tag_list(None), Vec::<String>::new());
}

#[test]
fn tag_list_round_trip_on_values() {
    let names = vec!["chill".to_string(), "lo,fi".to_string(), "été".to_string(), r"\,".to_string()];
    assert_eq!(parse_tag_list(Some(encode(&names))), names);
}

#[test]
fn track_display_reads_row() {
    let t = track_display(
        "spotify:track:1".to_string(),
        "Song".to_string(),
        "Band".to_string(),
        Some("a,b".to_string()),
    );
    assert_eq!(t.id, "spotify:track:1");
    assert_eq!(t.title, "Song");
    assert_eq!(t.artist, "Band");
    assert_eq!(t.tags, vec!["a".to_string(), "b".to_string()]);
    let untagged = track_display("x".to_string(), "T".to_string(), "A".to_string(), None);
    assert!(untagged.tags.is_empty());
}
