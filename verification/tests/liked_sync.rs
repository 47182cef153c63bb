use tagger::sync::{LikedTrack, LikedTrackSync, SyncAction, SyncEvent};

fn track(id: Option<&str>, name: &str, artists: &[&str], at: &str) -> LikedTrack {
    LikedTrack {
        id: id.map(|i| i.to_string()),
        name: name.to_string(),
        artist_names: artists.iter().map(|a| a.to_string()).collect(),
        liked_at: at.to_string(),
    }
}

fn row(id: &str, name: &str, artist: &str, at: &str) -> (String, String, String, String) {
    (id.to_string(), name.to_string(), artist.to_string(), at.to_string())
}

#[test]
fn sync_stops_at_first_synced_track() {
    let mut sync = LikedTrackSync::new(vec!["spotify:track:B".to_string()]);
    let a = SyncEvent::Track(track(Some("spotify:track:A"), "Alpha", &["Ann", "Al"], "2024-01-03T00:00:00+00:00"));
    let local = SyncEvent::Track(track(None, "Local", &[], "2024-01-02T00:00:00+00:00"));
    let b = SyncEvent::Track(track(Some("spotify:track:B"), "Beta", &["Bo"], "2024-01-01T00:00:00+00:00"));
    assert_eq!(sync.step(a), SyncAction::Continue);
    assert_eq!(sync.step(local), SyncAction::Continue);
    assert!(!sync.stopped());
    assert_eq!(sync.step(b), SyncAction::AlreadySynced("Beta".to_string()));
    assert!(sync.stopped());
    let later = SyncEvent::Track(track(Some("spotify:track:D"), "Delta", &["Di"], "2023-12-31T00:00:00+00:00"));
    assert_eq!(sync.step(later), SyncAction::FetchFailed);
    assert_eq!(
        sync.finish(),
        vec![
            row("spotify:track:A", "Alpha", "Ann", "2024-01-03T00:00:00+00:00"),
            row("", "Local", "", "2024-01-02T00:00:00+00:00"),
        ]
    );
}

#[test]
fn sync_stops_at_error() {
    let mut sync = LikedTrackSync::new(Vec::new());
    let a = SyncEvent::Track(track(Some("spotify:track:A"), "Alpha", &["Ann"], "t1"));
    assert_eq!(sync.step(a), SyncAction::Continue);
    assert_eq!(sync.step(SyncEvent::Failed), SyncAction::FetchFailed);
    assert!(sync.stopped());
    assert_eq!(sync.finish(), vec![row("spotify:track:A", "Alpha", "Ann", "t1")]);
}

#[test]
fn sync_with_nothing_known_keeps_everything() {
    let mut sync = LikedTrackSync::new(Vec::new());
    for i in 0..5 {
        let id = format!("spotify:track:{}", i);
        assert_eq!(sync.step(SyncEvent::Track(track(Some(&id), "n", &["a"], "t"))), SyncAction::Continue);
    }
    assert_eq!(sync.finish().len(), 5);
}

#[test]
fn sync_does_not_stop_at_empty_id_even_if_known() {
    let mut sync = LikedTrackSync::new(vec![String::new()]);
    let local = SyncEvent::Track(track(None, "Local", &["X"], "t"));
    assert_eq!(sync.step(local), SyncAction::Continue);
    assert_eq!(sync.finish(), vec![row("", "Local", "X", "t")]);
}

#[test]
fn more_synced_ids_give_a_prefix() {
    let events = || {
        vec![
            SyncEvent::Track(track(Some("spotify:track:A"), "A", &["x"], "t3")),
            SyncEvent::Track(track(Some("spotify:track:B"), "B", &["y"], "t2")),
            SyncEvent::Track(track(Some("spotify:track:C"), "C", &["z"], "t1")),
        ]
    };
    let run = |known: Vec<String>| {
        let mut sync = LikedTrackSync::new(known);
        for e in events() {
            if sync.step(e) != SyncAction::Continue {
                break;
            }
        }
        sync.finish()
    };
    let all = run(Vec::new());
    assert_eq!(all.len(), 3);
    let fewer = run(vec!["spotify:track:C".to_string()]);
    let more = run(vec!["spotify:track:C".to_string(), "spotify:track:B".to_string()]);
    assert_eq!(fewer, all[..2].to_vec());
    assert_eq!(more, fewer[..1].to_vec());
}

#[test]
fn sync_reports_why_it_stopped() {
    let mut sync = LikedTrackSync::new(vec!["spotify:track:K".to_string()]);
    assert!(!sync.stopped());
    sync.step(SyncEvent::Track(track(Some("spotify:track:K"), "Known", &[], "t")));
    assert!(sync.stopped());
    assert!(sync.finish().is_empty());
}
