use tagger::spotify::{get_auth_url, url_or_empty};
use tagger::store::database_url;
use tagger::web::{callback_error_message, redirect_after_tag, require_auth, sync_reply, SyncReply};

#[test]
fn require_auth_redirects_when_signed_out() {
    assert_eq!(require_auth(false), Some("/auth".to_string()));
    assert_eq!(require_auth(true), None);
}

#[test]
fn redirect_after_tag_keeps_query() {
    assert_eq!(
        redirect_after_tag(Some("http://localhost:8888/?tag=rock&page=2".to_string())),
        "/?tag=rock&page=2"
    );
}

#[test]
fn redirect_after_tag_without_query_goes_home() {
    assert_eq!(redirect_after_tag(Some("http://localhost:8888/".to_string())), "/");
    assert_eq!(redirect_after_tag(None), "/");
}

#[test]
fn redirect_after_tag_splits_at_first_question_mark() {
    assert_eq!(redirect_after_tag(Some("http://evil/?a?b".to_string())), "/?a?b");
    assert_eq!(redirect_after_tag(Some("?".to_string())), "/?");
}

#[test]
fn callback_error_quotes_query() {
    assert_eq!(
        callback_error_message("state=x"),
        "Error: Query string did not contain a readable 'code' field.\nRaw query seen by server: 'state=x'"
    );
}

#[test]
fn database_url_wraps_path() {
    assert_eq!(database_url("music.db"), "sqlite:music.db?mode=rwc");
}

#[test]
fn url_or_empty_defaults() {
    assert_eq!(url_or_empty(None), "");
    assert_eq!(url_or_empty(Some("u".to_string())), "u");
}

#[test]
fn auth_url_points_at_spotify() {
    let client = rspotify::AuthCodeSpotify::default();
    let url = get_auth_url(&client);
    assert!(url.starts_with("https://accounts.spotify.com/authorize?"));
    assert!(url.contains("response_type=code"));
}

#[test]
fn sync_reply_redirects() {
    assert_eq!(sync_reply(true), SyncReply::Redirect("/".to_string()));
    assert_eq!(sync_reply(false), SyncReply::HxRedirect("/auth".to_string()));
}

#[test]
fn auth_url_asks_for_code_without_dialog_by_default() {
    let client = rspotify::AuthCodeSpotify::default();
    let url = get_auth_url(&client);
    assert!(url.contains("client_id="));
    assert!(!url.contains("show_dialog=true"));
}
