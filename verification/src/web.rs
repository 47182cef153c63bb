use vstd::prelude::*;

use crate::text::{after_first, after_first_of};

verus! {

/// Where a request goes when the user has not signed in with Spotify:
/// nowhere when signed in, and to the sign-in route otherwise.
pub fn require_auth(authed: bool) -> (r: Option<String>)
    ensures
        authed ==> r is None,
        !authed ==> (r matches Some(to) && to@ == "/auth"@),
{
    if !authed {
        Some(String::from_str("/auth"))
    } else {
        None
    }
}

/// Where to go back to after a tag was attached to a track: the listing,
/// with the query of the page the request came from where that page had
/// one.
pub open spec fn back_to_listing(referer: Option<Seq<char>>) -> Seq<char> {
    match referer {
        Some(r) => match after_first(r, '?') {
            Some(query) => "/?"@ + query,
            None => "/"@,
        },
        None => "/"@,
    }
}

/// Where to go back to after a tag was attached to a track, given the page
/// the request came from (where it is known and readable).
pub fn redirect_after_tag(referer: Option<String>) -> (to: String)
    ensures
        to@ == back_to_listing(crate::text::opt_view(referer)),
        referer is None ==> to@ == "/"@,
        referer matches Some(r) ==> match after_first(r@, '?') {
            Some(query) => to@ == "/?"@ + query,
            None => to@ == "/"@,
        },
{
    match referer {
        Some(r) => match after_first_of(r.as_str(), '?') {
            Some(query) => {
                let mut to = String::from_str("/?");
                to.append(query.as_str());
                to
            },
            None => String::from_str("/"),
        },
        None => String::from_str("/"),
    }
}

/// Where to go back to after a tag was attached is always a page of this
/// site: it starts with "/".
pub proof fn lemma_redirect_stays_on_site(referer: Option<Seq<char>>)
    ensures
        back_to_listing(referer).len() > 0,
        back_to_listing(referer)[0] == '/',
{
    reveal_strlit("/");
    reveal_strlit("/?");
    match referer {
        Some(r) => match after_first(r, '?') {
            Some(query) => {
                assert(("/?"@ + query)[0] == "/?"@[0]);
            },
            None => {},
        },
        None => {},
    }
}

/// The page shown where the callback's query names no code.
pub open spec fn callback_error_text(raw_query: Seq<char>) -> Seq<char> {
    "Error: Query string did not contain a readable 'code' field.\nRaw query seen by server: '"@
        + raw_query + "'"@
}

/// The page shown where the callback's query names no code: it quotes
/// the query as the server saw it.
pub fn callback_error_message(raw_query: &str) -> (r: String)
    ensures
        r@ == callback_error_text(raw_query@),
{
    let mut r = String::from_str(
        "Error: Query string did not contain a readable 'code' field.\nRaw query seen by server: '",
    );
    r.append(raw_query);
    r.append("'");
    r
}

/// The answer to a request to sync the liked tracks.
#[derive(Clone, Debug, PartialEq, Eq)]
pub enum SyncReply {
    /// Go to this page.
    Redirect(String),
    /// An empty answer that tells the page script to go to this page.
    HxRedirect(String),
}

/// The answer to a sync: back to the listing where the liked tracks could
/// be fetched, and to the sign-in route (through the page script) where
/// they could not.
pub fn sync_reply(fetched: bool) -> (r: SyncReply)
    ensures
        fetched ==> (r matches SyncReply::Redirect(to) && to@ == "/"@),
        !fetched ==> (r matches SyncReply::HxRedirect(to) && to@ == "/auth"@),
{
    if fetched {
        SyncReply::Redirect(String::from_str("/"))
    } else {
        SyncReply::HxRedirect(String::from_str("/auth"))
    }
}

/// After a tag was attached, the user goes back to the listing with the
/// whole query of the page they came from: where the first `?` of the
/// referring URL is at position `i`, the redirect is `/?` followed by
/// everything after it, whatever that holds.
pub proof fn lemma_redirect_keeps_whole_query(referer: Seq<char>, i: int)
    requires
        0 <= i < referer.len(),
        referer[i] == '?',
        forall|k: int| 0 <= k < i ==> referer[k] != '?',
    ensures
        back_to_listing(Some(referer)) == "/?"@ + referer.subrange(i + 1, referer.len() as int),
{
    crate::text::lemma_after_first_is_after_first_occurrence(referer, '?', i);
}

/// Where the referring URL has no query (no `?`), or is unknown, the user
/// goes back to the first page of the listing.
pub proof fn lemma_redirect_without_query(referer: Option<Seq<char>>)
    requires
        referer matches Some(r) ==> forall|k: int| 0 <= k < r.len() ==> r[k] != '?',
    ensures
        back_to_listing(referer) == "/"@,
{
    if let Some(r) = referer {
        crate::text::lemma_after_first_absent(r, '?');
    }
}

} // verus!
