use vstd::prelude::*;

use crate::models::{FilterQuery, IndexTemplate, TrackDisplay};
use crate::selection::Selection;
use crate::text::{opt_view, views};

verus! {

/// How many tracks a page of the listing holds.
pub const PAGE_SIZE: i64 = 50;

/// The start of the query for a page of tracks: each track with its tag
/// list, in which every tag name is written with its backslashes and commas
/// escaped by a backslash and the names are joined by commas (the form that
/// `tags::encode_tags` describes and `tags::parse_tag_list` reads).
pub const TRACKS_SELECT: &'static str = "
        SELECT t.spotify_id, t.title, t.artist_name,
            GROUP_CONCAT(replace(replace(tg.name, '\\', '\\\\'), ',', '\\,'), ',') as tag_list
        FROM tracks t
        LEFT JOIN track_tags tt ON t.spotify_id = tt.spotify_id
        LEFT JOIN tags tg ON tt.tag_id = tg.id
        ";

/// The condition that keeps the tracks that carry the tag bound first.
pub const TAG_FILTER: &'static str = "
            WHERE EXISTS (
                SELECT 1 FROM track_tags tt2 
                JOIN tags tg2 ON tt2.tag_id = tg2.id 
                WHERE tt2.spotify_id = t.spotify_id AND tg2.name = ?
            )
            ";

/// The end of the query: newest liked first, with a limit and an offset
/// bound last.
pub const PAGE_TAIL: &'static str = " GROUP BY t.spotify_id ORDER BY t.liked_at DESC LIMIT ? OFFSET ?";

/// The query for the tracks whose title matches the SQL `LIKE` pattern
/// `%text%` for the text bound to it (ignoring case; a `%` or `_` in the
/// text acts as a wildcard), newest liked first, each with its tag list
/// written as in `TRACKS_SELECT`.
pub const TITLE_SEARCH: &'static str = "
        SELECT t.spotify_id, t.title, t.artist_name,
            GROUP_CONCAT(replace(replace(tg.name, '\\', '\\\\'), ',', '\\,'), ',') as tag_list
        FROM tracks t
        LEFT JOIN track_tags tt ON t.spotify_id = tt.spotify_id
        LEFT JOIN tags tg ON tt.tag_id = tg.id
        WHERE t.title LIKE '%' || ? || '%' COLLATE NOCASE
        GROUP BY t.spotify_id
        ORDER BY t.liked_at DESC
        ";

/// A query for a page of tracks: its text and, in the order of its
/// placeholders, the tag to filter by (where there is one), the limit and
/// the offset.
#[derive(Clone, Debug, PartialEq, Eq)]
pub struct PagedQuery {
    pub sql: String,
    pub tag: Option<String>,
    pub limit: i64,
    pub offset: i64,
}

/// The text of the query for a page of tracks, with or without the tag
/// condition.
pub open spec fn paged_sql(filtered: bool) -> Seq<char> {
    if filtered {
        TRACKS_SELECT@ + TAG_FILTER@ + PAGE_TAIL@
    } else {
        TRACKS_SELECT@ + PAGE_TAIL@
    }
}

/// The query for at most `limit` tracks after the first `offset`, of the
/// tracks that carry `filter_tag` where it is given.
pub fn paged_query(filter_tag: Option<String>, limit: i64, offset: i64) -> (q: PagedQuery)
    ensures
        q.sql@ == paged_sql(filter_tag is Some),
        q.tag == filter_tag,
        q.limit == limit,
        q.offset == offset,
{
    let mut sql = String::from_str(TRACKS_SELECT);
    if filter_tag.is_some() {
        sql.append(TAG_FILTER);
    }
    sql.append(PAGE_TAIL);
    PagedQuery { sql, tag: filter_tag, limit, offset }
}

/// The query for page `page` of `page_size` tracks, of the tracks that
/// carry `filter_tag` where it is given: at most `page_size` tracks, after
/// the first `page * page_size`.
pub fn fetch_tracks_paged(filter_tag: Option<String>, page: i64, page_size: i64) -> (q: PagedQuery)
    requires
        i64::MIN <= page * page_size <= i64::MAX,
    ensures
        q.sql@ == paged_sql(filter_tag is Some),
        q.tag == filter_tag,
        q.limit == page_size,
        q.offset == page * page_size,
{
    paged_query(filter_tag, page_size, page * page_size)
}

/// How the listing finds its tracks.
#[derive(Clone, Debug, PartialEq, Eq)]
pub enum TrackQuery {
    /// The tracks whose title contains this text.
    ByTitle(String),
    /// At most `limit` tracks after the first `offset`, of the tracks that
    /// carry the tag where one is given.
    Paged { tag: Option<String>, limit: i64, offset: i64 },
}

/// The page that a listing query asks for: the first where it names none.
pub open spec fn requested_page(filter: FilterQuery) -> i64 {
    match filter.page {
        Some(p) => p,
        None => 0,
    }
}

/// How the listing finds its tracks: a title search wins over a tag
/// filter; otherwise the tracks of page `page` start after the first
/// `page * PAGE_SIZE`, and the listing asks for one more than a page holds,
/// so that it can tell whether a next page exists.
pub fn plan_track_query(filter: &FilterQuery) -> (q: TrackQuery)
    requires
        filter.q is None ==> i64::MIN <= requested_page(*filter) * PAGE_SIZE <= i64::MAX,
    ensures
        match filter.q {
            Some(title) => q == TrackQuery::ByTitle(title),
            None => q == (TrackQuery::Paged {
                tag: filter.tag,
                limit: (PAGE_SIZE + 1) as i64,
                offset: (requested_page(*filter) * PAGE_SIZE) as i64,
            }),
        },
{
    match &filter.q {
        Some(title) => TrackQuery::ByTitle(title.clone()),
        None => {
            let page = match filter.page {
                Some(p) => p,
                None => 0,
            };
            TrackQuery::Paged { tag: filter.tag.clone(), limit: PAGE_SIZE + 1, offset: page * PAGE_SIZE }
        },
    }
}

/// The time of the last sync as the listing shows it: "Never" where none
/// is stored.
pub fn last_sync_label(stored: Option<String>) -> (r: String)
    ensures
        r@ == match stored {
            Some(s) => s@,
            None => "Never"@,
        },
{
    match stored {
        Some(s) => s,
        None => String::from_str("Never"),
    }
}

/// Whether the listing offers a next page: only for a page (not for a title
/// search), and only where more tracks came back than a page shows.
pub open spec fn has_next_page(filter: FilterQuery, found: nat) -> bool {
    found > PAGE_SIZE && filter.q is None
}

/// The tracks that the listing shows of those found: all those of a title
/// search, and at most `PAGE_SIZE` of a page (whose query asks for one more).
pub open spec fn shown_tracks(filter: FilterQuery, found: Seq<TrackDisplay>) -> Seq<TrackDisplay> {
    if filter.q is None && found.len() > PAGE_SIZE {
        found.take(PAGE_SIZE as int)
    } else {
        found
    }
}

/// The filter that the listing shows as current: the tag, or else the
/// searched title.
pub open spec fn current_filter(filter: FilterQuery) -> Option<String> {
    match filter.tag {
        Some(t) => Some(t),
        None => filter.q,
    }
}

/// The listing page, from its query, the tracks found, all tags, the
/// stored time of the last sync and the selection.
pub fn list_tracks(
    filter: FilterQuery,
    tracks: Vec<TrackDisplay>,
    all_tags: Vec<String>,
    last_sync: Option<String>,
    selected: &Selection,
) -> (page: IndexTemplate)
    ensures
        page.tracks@ == shown_tracks(filter, tracks@),
        page.all_tags == all_tags,
        page.current_filter == current_filter(filter),
        page.current_page == requested_page(filter),
        page.has_next == has_next_page(filter, tracks@.len()),
        page.last_sync@ == match last_sync {
            Some(s) => s@,
            None => "Never"@,
        },
        views(page.selected_ids@) == selected.ids(),
{
    let has_next = tracks.len() > PAGE_SIZE as usize && filter.q.is_none();
    let mut tracks = tracks;
    if filter.q.is_none() {
        tracks.truncate(PAGE_SIZE as usize);
    }
    let current_page = match filter.page {
        Some(p) => p,
        None => 0,
    };
    let current_filter = match filter.tag {
        Some(t) => Some(t),
        None => filter.q,
    };
    IndexTemplate {
        tracks,
        all_tags,
        current_filter,
        current_page,
        has_next,
        last_sync: last_sync_label(last_sync),
        selected_ids: selected.to_vec(),
    }
}

/// The rows that a query with `LIMIT limit OFFSET offset` gives of the
/// ordered rows `all` (for a non-negative offset and limit).
pub open spec fn window<T>(all: Seq<T>, offset: int, limit: int) -> Seq<T> {
    let from = if offset < all.len() { offset } else { all.len() as int };
    let to = if offset + limit < all.len() { offset + limit } else { all.len() as int };
    all.subrange(from, to)
}

/// Page `page` of the listing (not a title search) shows the tracks from
/// `page * PAGE_SIZE` on, at most `PAGE_SIZE` of them, and offers a next
/// page exactly where more tracks follow them: given the ordered tracks
/// `all` that the query selects, and the rows that the page's query
/// (limit `PAGE_SIZE + 1`, offset `page * PAGE_SIZE`) gives of them.
pub proof fn lemma_page_shows_its_tracks(filter: FilterQuery, all: Seq<TrackDisplay>, page: int)
    requires
        filter.q is None,
        page >= 0,
    ensures
        shown_tracks(filter, window(all, page * PAGE_SIZE, PAGE_SIZE + 1)) == window(
            all,
            page * PAGE_SIZE,
            PAGE_SIZE as int,
        ),
        has_next_page(filter, window(all, page * PAGE_SIZE, PAGE_SIZE + 1).len()) <==> all.len()
            > page * PAGE_SIZE + PAGE_SIZE,
{
    assert(page * PAGE_SIZE >= 0) by (nonlinear_arith)
        requires
            page >= 0,
    ;
    let found = window(all, page * PAGE_SIZE, PAGE_SIZE + 1);
    if found.len() > PAGE_SIZE {
        assert(found.take(PAGE_SIZE as int) =~= window(all, page * PAGE_SIZE, PAGE_SIZE as int));
    }
}

/// The tracks of pages `0` to `pages - 1` of `page_size` tracks each, one
/// page after the other, as `fetch_tracks_paged` selects them of the ordered
/// tracks `all`.
pub open spec fn first_pages<T>(all: Seq<T>, page_size: int, pages: nat) -> Seq<T>
    decreases pages,
{
    if pages == 0 {
        Seq::empty()
    } else {
        first_pages(all, page_size, (pages - 1) as nat) + window(
            all,
            (pages - 1) * page_size,
            page_size,
        )
    }
}

/// Pages do not overlap and skip nothing: the first `pages` pages, one
/// after the other, are the first `pages * page_size` tracks (or all of
/// them, where there are fewer), each once and in order.
pub proof fn lemma_pages_concatenate<T>(all: Seq<T>, page_size: int, pages: nat)
    requires
        page_size >= 0,
    ensures
        first_pages(all, page_size, pages) == all.take(
            if pages * page_size < all.len() {
                pages * page_size
            } else {
                all.len() as int
            },
        ),
    decreases pages,
{
    if pages == 0 {
        assert(first_pages(all, page_size, pages) =~= all.take(0));
    } else {
        let k = (pages - 1) as nat;
        lemma_pages_concatenate(all, page_size, k);
        assert(k * page_size + page_size == pages * page_size) by (nonlinear_arith)
            requires
                k + 1 == pages,
        ;
        assert(k * page_size >= 0) by (nonlinear_arith)
            requires
                page_size >= 0,
        ;
        let a = if k * page_size < all.len() {
            k * page_size
        } else {
            all.len() as int
        };
        let b = if pages * page_size < all.len() {
            pages * page_size
        } else {
            all.len() as int
        };
        assert(all.take(a) + all.subrange(a, b) =~= all.take(b));
    }
}

} // verus!
