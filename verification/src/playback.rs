use vstd::prelude::*;

use crate::models::PlaybackView;

verus! {

/// What is playing, as far as the "now playing" fragment reads it.
#[derive(Clone, Debug, PartialEq, Eq)]
#[allow(inconsistent_fields)]
pub enum PlayingItem {
    /// A track: its name, the names of its artists and the URLs of its
    /// album's images.
    Track { name: String, artist_names: Vec<String>, album_image_urls: Vec<String> },
    /// A podcast episode: its name and the URLs of its images.
    Episode { name: String, image_urls: Vec<String> },
    /// An item of another shape, read from its raw JSON: the string at
    /// `name`, at `artists[0].name` and at `album.images[0].url`, where
    /// there is a string there.
    Unknown {
        name: Option<String>,
        first_artist_name: Option<String>,
        first_album_image_url: Option<String>,
    },
}

/// The playback state of the user's player.
#[derive(Clone, Debug, PartialEq, Eq)]
pub struct PlaybackContext {
    pub item: Option<PlayingItem>,
    pub is_playing: bool,
    pub device_name: String,
}

/// The view of a fragment: name, artist, image URL, whether it plays,
/// device name.
pub type PlaybackViewModel = (Seq<char>, Seq<char>, Seq<char>, bool, Seq<char>);

pub open spec fn playback_view_model(v: PlaybackView) -> PlaybackViewModel {
    (v.name@, v.artist@, v.image_url@, v.is_playing, v.device_name@)
}

/// The first string of a list, or the empty string.
pub open spec fn first_or_empty(v: Seq<String>) -> Seq<char> {
    if v.len() > 0 {
        v[0]@
    } else {
        Seq::<char>::empty()
    }
}

/// A string where there is one, and `default` otherwise.
pub open spec fn or_default(o: Option<String>, default: Seq<char>) -> Seq<char> {
    match o {
        Some(s) => s@,
        None => default,
    }
}

/// Name, artist and image URL shown for an item.
pub open spec fn item_display(item: PlayingItem) -> (Seq<char>, Seq<char>, Seq<char>) {
    match item {
        PlayingItem::Track { name, artist_names, album_image_urls } => (
            name@,
            first_or_empty(artist_names@),
            first_or_empty(album_image_urls@),
        ),
        PlayingItem::Episode { name, image_urls } => (
            name@,
            "Podcast"@,
            first_or_empty(image_urls@),
        ),
        PlayingItem::Unknown { name, first_artist_name, first_album_image_url } => (
            or_default(name, "Unknown"@),
            or_default(first_artist_name, "Various"@),
            or_default(first_album_image_url, Seq::<char>::empty()),
        ),
    }
}

fn first_or_empty_of(v: &Vec<String>) -> (r: String)
    ensures
        r@ == first_or_empty(v@),
{
    if v.len() > 0 {
        v[0].clone()
    } else {
        String::new()
    }
}

fn or_default_of(o: &Option<String>, default: &str) -> (r: String)
    ensures
        r@ == or_default(*o, default@),
{
    match o {
        Some(s) => s.clone(),
        None => String::from_str(default),
    }
}

impl PlaybackView {
    /// What the fragment shows of a playback state: nothing where nothing
    /// is playing; otherwise the item's name, artist and image, whether it
    /// plays, and the device.
    pub fn from_context(ctx: &PlaybackContext) -> (r: Option<PlaybackView>)
        ensures
            match ctx.item {
                None => r is None,
                Some(item) => r matches Some(v) && playback_view_model(v) == (
                    item_display(item).0,
                    item_display(item).1,
                    item_display(item).2,
                    ctx.is_playing,
                    ctx.device_name@,
                ),
            },
            ctx.item is Some ==> (r matches Some(v) && v.is_playing == ctx.is_playing
                && v.device_name@ == ctx.device_name@),
            ctx.item matches Some(PlayingItem::Track { name, artist_names, album_image_urls }) ==> (
            r matches Some(v) && v.name@ == name@ && (artist_names@.len() > 0 ==> v.artist@
                == artist_names@[0]@) && (artist_names@.len() == 0 ==> v.artist@.len() == 0) && (
            album_image_urls@.len() > 0 ==> v.image_url@ == album_image_urls@[0]@) && (
            album_image_urls@.len() == 0 ==> v.image_url@.len() == 0)),
    {
        let item = match &ctx.item {
            Some(item) => item,
            None => return None,
        };
        let (name, artist, image_url) = match item {
            PlayingItem::Track { name, artist_names, album_image_urls } => (
                name.clone(),
                first_or_empty_of(artist_names),
                first_or_empty_of(album_image_urls),
            ),
            PlayingItem::Episode { name, image_urls } => (
                name.clone(),
                String::from_str("Podcast"),
                first_or_empty_of(image_urls),
            ),
            PlayingItem::Unknown { name, first_artist_name, first_album_image_url } => (
                or_default_of(name, "Unknown"),
                or_default_of(first_artist_name, "Various"),
                or_default_of(first_album_image_url, ""),
            ),
        };
        proof {
            reveal_strlit("");
        }
        Some(
            PlaybackView {
                name,
                artist,
                image_url,
                is_playing: ctx.is_playing,
                device_name: ctx.device_name.clone(),
            },
        )
    }
}

/// What the fragment shows of each kind of item. A track: its name, the
/// name of its first artist and the URL of its album's first image (the
/// empty string where it lists none). An episode: its name, "Podcast" and
/// the URL of its first image. An item of another shape: the strings read
/// from its JSON, or "Unknown", "Various" and the empty string where they
/// are missing.
pub proof fn lemma_item_display(item: PlayingItem)
    ensures
        item matches PlayingItem::Track { name, artist_names, album_image_urls } ==> {
            &&& item_display(item).0 == name@
            &&& artist_names@.len() > 0 ==> item_display(item).1 == artist_names@[0]@
            &&& artist_names@.len() == 0 ==> item_display(item).1.len() == 0
            &&& album_image_urls@.len() > 0 ==> item_display(item).2 == album_image_urls@[0]@
            &&& album_image_urls@.len() == 0 ==> item_display(item).2.len() == 0
        },
        item matches PlayingItem::Episode { name, image_urls } ==> {
            &&& item_display(item).0 == name@
            &&& item_display(item).1 == "Podcast"@
            &&& image_urls@.len() > 0 ==> item_display(item).2 == image_urls@[0]@
            &&& image_urls@.len() == 0 ==> item_display(item).2.len() == 0
        },
        item matches PlayingItem::Unknown { name, first_artist_name, first_album_image_url } ==> {
            &&& name matches Some(n) ==> item_display(item).0 == n@
            &&& name is None ==> item_display(item).0 == "Unknown"@
            &&& first_artist_name matches Some(a) ==> item_display(item).1 == a@
            &&& first_artist_name is None ==> item_display(item).1 == "Various"@
            &&& first_album_image_url matches Some(u) ==> item_display(item).2 == u@
            &&& first_album_image_url is None ==> item_display(item).2.len() == 0
        },
{
}

} // verus!
