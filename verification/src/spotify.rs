use vstd::prelude::*;

use rspotify::AuthCodeSpotify;

verus! {

/// rspotify's `AuthCodeSpotify` client, held opaque: the library only hands
/// it to `get_authorize_url`.
#[verifier::external_type_specification]
#[verifier::external_body]
pub struct ExAuthCodeSpotify(rspotify::AuthCodeSpotify);

/// Whether `text` occurs in `s`.
pub open spec fn holds_text(s: Seq<char>, text: Seq<char>) -> bool {
    exists|i: int|
        0 <= i && i + text.len() <= s.len() && #[trigger] s.subrange(i, i + text.len()) == text
}

/// Whether a sign-in URL asks Spotify for an authorization code on behalf
/// of a client: its query holds `response_type=code` and a `client_id`.
pub open spec fn asks_for_code(url: Seq<char>) -> bool {
    holds_text(url, "response_type=code"@) && holds_text(url, "client_id="@)
}

/// Whether `url` holds the query parameter that forces Spotify's consent
/// dialog.
pub open spec fn forces_dialog(url: Seq<char>) -> bool {
    holds_text(url, "show_dialog=true"@)
}

/// `AuthCodeSpotify::get_authorize_url`, with its error turned into `None`.
/// Its source always adds the pairs `client_id=...` and `response_type=code`
/// (with `redirect_uri`, `scope` and `state`) to the query of the URL it
/// parses, and adds `show_dialog=true` where the dialog is asked for. The
/// rest of the URL depends on the client's credentials, redirect URI,
/// scopes, randomly drawn state and configured base URL, and on the order
/// in which a hash map is walked: nothing more is stated of it. In
/// particular it is not stated that `show_dialog=true` is absent when the
/// dialog is not asked for: the client's base URL, a public field that the
/// library cannot see, may itself carry it.
#[verifier::external_body]
fn authorize_url(spotify: &AuthCodeSpotify, show_dialog: bool) -> (r: Option<String>)
    ensures
        r matches Some(u) ==> asks_for_code(u@),
        show_dialog ==> (r matches Some(u) ==> forces_dialog(u@)),
{
    spotify.get_authorize_url(show_dialog).ok()
}

/// A URL where there is one, and the empty string otherwise.
pub fn url_or_empty(url: Option<String>) -> (r: String)
    ensures
        r@ == match url {
            Some(u) => u@,
            None => Seq::<char>::empty(),
        },
{
    match url {
        Some(u) => u,
        None => String::new(),
    }
}

/// The URL where the user signs in with Spotify (without forcing the
/// consent dialog), or the empty string where the client cannot build one.
/// Whatever the client builds, a URL returned asks for an authorization
/// code for the client.
pub fn get_auth_url(spotify: &AuthCodeSpotify) -> (r: String)
    ensures
        r@.len() == 0 || asks_for_code(r@),
{
    url_or_empty(authorize_url(spotify, false))
}

} // verus!
