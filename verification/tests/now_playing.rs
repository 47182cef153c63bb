use tagger::models::PlaybackView;
use tagger::playback::{PlaybackContext, PlayingItem};

fn ctx(item: Option<PlayingItem>) -> PlaybackContext {
    PlaybackContext { item, is_playing: true, device_name: "Kitchen".to_string() }
}

#[test]
fn nothing_playing_gives_no_view() {
    assert_eq!(PlaybackView::from_context(&ctx(None)), None);
}

#[test]
fn track_shows_first_artist_and_image() {
    let item = PlayingItem::Track {
        name: "Song".to_string(),
        artist_names: vec!["First".to_string(), "Second".to_string()],
        album_image_urls: vec!["http://img/1".to_string(), "http://img/2".to_string()],
    };
    let v = PlaybackView::from_context(&ctx(Some(item))).unwrap();
    assert_eq!(v.name, "Song");
    assert_eq!(v.artist, "First");
    assert_eq!(v.image_url, "http://img/1");
    assert!(v.is_playing);
    assert_eq!(v.device_name, "Kitchen");
}

#[test]
fn track_without_artists_or_images() {
    let item = PlayingItem::Track { name: "Bare".to_string(), artist_names: vec![], album_image_urls: vec![] };
    let v = PlaybackView::from_context(&ctx(Some(item))).unwrap();
    assert_eq!(v.artist, "");
    assert_eq!(v.image_url, "");
}

#[test]
fn episode_shows_podcast() {
    let item = PlayingItem::Episode { name: "Ep 1".to_string(), image_urls: vec!["http://ep".to_string()] };
    let v = PlaybackView::from_context(&ctx(Some(item))).unwrap();
    assert_eq!(v.name, "Ep 1");
    assert_eq!(v.artist, "Podcast");
    assert_eq!(v.image_url, "http://ep");
}

#[test]
fn unknown_item_falls_back() {
    let item = PlayingItem::Unknown { name: None, first_artist_name: None, first_album_image_url: None };
    let mut c = ctx(Some(item));
    c.is_playing = false;
    let v = PlaybackView::from_context(&c).unwrap();
    assert_eq!(v.name, "Unknown");
    assert_eq!(v.artist, "Various");
    assert_eq!(v.image_url, "");
    assert!(!v.is_playing);
}

#[test]
fn unknown_item_reads_fields() {
    let item = PlayingItem::Unknown {
        name: Some("Raw".to_string()),
        first_artist_name: Some("Someone".to_string()),
        first_album_image_url: Some("http://raw".to_string()),
    };
    let v = PlaybackView::from_context(&ctx(Some(item))).unwrap();
    assert_eq!((v.name.as_str(), v.artist.as_str(), v.image_url.as_str()), ("Raw", "Someone", "http://raw"));
}
