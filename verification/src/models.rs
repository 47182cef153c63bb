use vstd::prelude::*;

verus! {

/// A track as the listing shows it: its Spotify id, title, artist and tags.
#[derive(Clone, Debug, PartialEq, Eq)]
pub struct TrackDisplay {
    pub id: String,
    pub title: String,
    pub artist: String,
    pub tags: Vec<String>,
}

/// The form that names a tag, to create it or to attach it to a track.
#[derive(Clone, Debug, PartialEq, Eq)]
pub struct NewTagRequest {
    pub tag_name: String,
}

/// The query of the listing page: a tag to filter by, a title to search
/// for, and a page number.
#[derive(Clone, Debug, PartialEq, Eq)]
pub struct FilterQuery {
    pub tag: Option<String>,
    pub q: Option<String>,
    pub page: Option<i64>,
}

/// The query of the authorization callback.
#[derive(Clone, Debug, PartialEq, Eq)]
pub struct CallbackQuery {
    pub code: String,
}

/// What the "now playing" fragment shows.
#[derive(Clone, Debug, PartialEq, Eq)]
pub struct PlaybackView {
    pub name: String,
    pub artist: String,
    pub image_url: String,
    pub is_playing: bool,
    pub device_name: String,
}

/// The data of the "now playing" fragment.
#[derive(Clone, Debug, PartialEq, Eq)]
pub struct PlaybackTemplate {
    pub playback: Option<PlaybackView>,
}

/// The data of the listing page. `selected_ids` holds each selected track
/// id once.
#[derive(Clone, Debug, PartialEq, Eq)]
pub struct IndexTemplate {
    pub tracks: Vec<TrackDisplay>,
    pub all_tags: Vec<String>,
    pub current_filter: Option<String>,
    pub current_page: i64,
    pub has_next: bool,
    pub last_sync: String,
    pub selected_ids: Vec<String>,
}

} // verus!
