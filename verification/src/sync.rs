use vstd::prelude::*;

use crate::text::views;

verus! {

/// A liked track, as the Spotify library lists it: its id (written as a
/// Spotify URI; a local file has none), its name, the names of its
/// artists, and when it was liked (RFC 3339).
#[derive(Clone, Debug, PartialEq, Eq)]
pub struct LikedTrack {
    pub id: Option<String>,
    pub name: String,
    pub artist_names: Vec<String>,
    pub liked_at: String,
}

/// One answer of the stream of liked tracks, newest first.
#[derive(Clone, Debug, PartialEq, Eq)]
pub enum SyncEvent {
    /// The next liked track.
    Track(LikedTrack),
    /// The stream reported an error.
    Failed,
}

/// What to do after an answer of the stream.
#[derive(Clone, Debug, PartialEq, Eq)]
pub enum SyncAction {
    /// Ask for the next liked track.
    Continue,
    /// Stop: the track with this name is synced already.
    AlreadySynced(String),
    /// Stop: the stream reported an error.
    FetchFailed,
}

/// A row of the tracks table: Spotify id, title, artist, when liked.
pub type TrackRow = (String, String, String, String);

/// The view of a row.
pub type RowView = (Seq<char>, Seq<char>, Seq<char>, Seq<char>);

pub open spec fn row_view(r: TrackRow) -> RowView {
    (r.0@, r.1@, r.2@, r.3@)
}

pub open spec fn rows_view(rows: Seq<TrackRow>) -> Seq<RowView> {
    rows.map_values(|r: TrackRow| row_view(r))
}

/// The id under which a liked track is stored: its id, or the empty
/// string where it has none.
pub open spec fn stored_id(t: LikedTrack) -> Seq<char> {
    match t.id {
        Some(id) => id@,
        None => Seq::<char>::empty(),
    }
}

/// The row that a liked track is stored as: its first artist stands for
/// the artists (the empty string where it lists none).
pub open spec fn track_row(t: LikedTrack) -> RowView {
    (
        stored_id(t),
        t.name@,
        if t.artist_names@.len() > 0 {
            t.artist_names@[0]@
        } else {
            Seq::<char>::empty()
        },
        t.liked_at@,
    )
}

/// Whether an answer ends the sync: an error does, and so does a track
/// whose (non-empty) id is among those synced already.
pub open spec fn stops_sync(synced: Set<Seq<char>>, e: SyncEvent) -> bool {
    match e {
        SyncEvent::Failed => true,
        SyncEvent::Track(t) => stored_id(t).len() > 0 && synced.contains(stored_id(t)),
    }
}

/// The rows that a sync stores, given the ids synced already and the
/// answers of the stream: those of the tracks before the first answer
/// that stops the sync.
pub open spec fn synced_rows(synced: Set<Seq<char>>, events: Seq<SyncEvent>) -> Seq<RowView>
    decreases events.len(),
{
    if events.len() == 0 || stops_sync(synced, events[0]) {
        Seq::empty()
    } else {
        match events[0] {
            SyncEvent::Track(t) => seq![track_row(t)] + synced_rows(synced, events.drop_first()),
            SyncEvent::Failed => Seq::empty(),
        }
    }
}

/// The state of an incremental sync of liked tracks: the ids synced
/// already, the rows collected so far, and whether the sync has stopped.
pub struct LikedTrackSync {
    synced: Vec<String>,
    rows: Vec<TrackRow>,
    stopped: bool,
    seen: Ghost<Seq<SyncEvent>>,
}

impl LikedTrackSync {
    /// The ids synced already, as a set.
    pub closed spec fn synced_ids(&self) -> Set<Seq<char>> {
        views(self.synced@).to_set()
    }

    /// The answers handed to the sync while it ran, in order.
    pub closed spec fn seen(&self) -> Seq<SyncEvent> {
        self.seen@
    }

    /// The rows collected so far.
    pub closed spec fn rows(&self) -> Seq<RowView> {
        rows_view(self.rows@)
    }

    /// Whether the sync has stopped.
    pub closed spec fn is_stopped(&self) -> bool {
        self.stopped
    }

    /// The rows are those of the answers seen, and the sync has stopped
    /// exactly where an answer stopped it (the last one seen).
    #[verifier::type_invariant]
    closed spec fn inv(&self) -> bool {
        &&& rows_view(self.rows@) == synced_rows(self.synced_ids(), self.seen@)
        &&& !self.stopped ==> forall|i: int|
            0 <= i < self.seen@.len() ==> !stops_sync(self.synced_ids(), #[trigger] self.seen@[i])
        &&& self.stopped ==> self.seen@.len() > 0 && stops_sync(self.synced_ids(), self.seen@.last())
    }

    /// A sync that has seen nothing yet, given the ids synced already.
    pub fn new(synced: Vec<String>) -> (s: Self)
        ensures
            s.synced_ids() == views(synced@).to_set(),
            forall|x: Seq<char>|
                s.synced_ids().contains(x) <==> exists|i: int|
                    0 <= i < synced@.len() && (#[trigger] synced@[i])@ == x,
            s.seen() == Seq::<SyncEvent>::empty(),
            s.rows() == Seq::<RowView>::empty(),
            !s.is_stopped(),
    {
        let rows: Vec<TrackRow> = Vec::new();
        assert(rows_view(rows@) =~= Seq::<RowView>::empty());
        assert forall|x: Seq<char>|
            views(synced@).to_set().contains(x) <==> exists|i: int|
                0 <= i < synced@.len() && (#[trigger] synced@[i])@ == x by {
            if views(synced@).to_set().contains(x) {
                let i = choose|i: int| 0 <= i < views(synced@).len() && views(synced@)[i] == x;
                assert(synced@[i]@ == x);
            }
            if exists|i: int| 0 <= i < synced@.len() && (#[trigger] synced@[i])@ == x {
                let i = choose|i: int| 0 <= i < synced@.len() && (#[trigger] synced@[i])@ == x;
                assert(views(synced@)[i] == x);
            }
        }
        LikedTrackSync { synced, rows, stopped: false, seen: Ghost(Seq::empty()) }
    }

    /// Whether the sync has stopped: where it has, the last answer handed
    /// to it stopped it; where it has not, no answer handed to it did.
    pub fn stopped(&self) -> (b: bool)
        ensures
            b == self.is_stopped(),
            b ==> self.seen().len() > 0 && stops_sync(self.synced_ids(), self.seen().last()),
            !b ==> forall|i: int|
                0 <= i < self.seen().len() ==> !stops_sync(self.synced_ids(), #[trigger] self.seen()[i]),
    {
        proof {
            use_type_invariant(self);
        }
        self.stopped
    }

    /// Takes the next answer of the stream, and says whether to go on.
    pub fn step(&mut self, event: SyncEvent) -> (action: SyncAction)
        ensures
            old(self).is_stopped() ==> *final(self) == *old(self) && action == SyncAction::FetchFailed,
            !old(self).is_stopped() ==> {
                &&& final(self).synced_ids() == old(self).synced_ids()
                &&& final(self).seen() == old(self).seen().push(event)
                &&& final(self).is_stopped() == stops_sync(old(self).synced_ids(), event)
                &&& final(self).is_stopped() == match event {
                    SyncEvent::Failed => true,
                    SyncEvent::Track(t) => t.id matches Some(id) && id@.len() > 0
                        && old(self).synced_ids().contains(id@),
                }
                &&& match event {
                    SyncEvent::Failed => action == SyncAction::FetchFailed,
                    SyncEvent::Track(t) => if stops_sync(old(self).synced_ids(), event) {
                        action matches SyncAction::AlreadySynced(name) && name@ == t.name@
                    } else {
                        action == SyncAction::Continue
                    },
                }
            },
            final(self).rows() == synced_rows(final(self).synced_ids(), final(self).seen()),
    {
        proof {
            use_type_invariant(&*self);
        }
        if self.stopped {
            return SyncAction::FetchFailed;
        }
        let ghost known = self.synced_ids();
        let ghost before = self.seen@;
        proof {
            lemma_synced_rows_push(known, before, event);
        }
        let ghost ev = event;
        let mut current = LikedTrackSync::new(Vec::new());
        std::mem::swap(&mut current, self);
        proof {
            use_type_invariant(&current);
        }
        let LikedTrackSync { synced, mut rows, stopped: _, seen: _ } = current;
        assert(views(synced@).to_set() == known);
        assert(rows_view(rows@) == synced_rows(known, before));
        assert(forall|i: int| 0 <= i < before.len() ==> !stops_sync(known, #[trigger] before[i]));
        let ghost after = before.push(ev);
        assert(after[after.len() - 1] == ev);
        let (stopped, action) = match event {
            SyncEvent::Failed => {
                assert(stops_sync(known, after[after.len() - 1]));
                (true, SyncAction::FetchFailed)
            },
            SyncEvent::Track(t) => {
                let id = match t.id {
                    Some(id) => id,
                    None => String::new(),
                };
                assert(id@ == stored_id(t));
                if !id.as_str().is_empty() && is_synced(&synced, &id) {
                    assert(stops_sync(known, after[after.len() - 1]));
                    (true, SyncAction::AlreadySynced(t.name))
                } else {
                    let artist = if t.artist_names.len() > 0 {
                        t.artist_names[0].clone()
                    } else {
                        String::new()
                    };
                    let row: TrackRow = (id, t.name, artist, t.liked_at);
                    assert(row_view(row) == track_row(t));
                    rows.push(row);
                    assert(rows_view(rows@) =~= synced_rows(known, after));
                    assert forall|i: int| 0 <= i < after.len() implies !stops_sync(
                        known,
                        #[trigger] after[i],
                    ) by {
                        if i < before.len() {
                            assert(after[i] == before[i]);
                        }
                    }
                    (false, SyncAction::Continue)
                }
            },
        };
        assert(rows_view(rows@) == synced_rows(known, after));
        assert(stopped == stops_sync(known, ev));
        assert(stopped ==> stops_sync(known, after.last()));
        let next = LikedTrackSync { synced, rows, stopped, seen: Ghost(after) };
        *self = next;
        action
    }

    /// The rows collected: those of the liked tracks before the first
    /// answer that stopped the sync, newest first.
    pub fn finish(self) -> (rows: Vec<TrackRow>)
        ensures
            rows_view(rows@) == synced_rows(self.synced_ids(), self.seen()),
    {
        proof {
            use_type_invariant(&self);
        }
        self.rows
    }
}

fn is_synced(synced: &Vec<String>, id: &String) -> (b: bool)
    ensures
        b == views(synced@).to_set().contains(id@),
{
    let mut i: usize = 0;
    while i < synced.len()
        invariant
            i <= synced@.len(),
            forall|k: int| 0 <= k < i ==> synced@[k]@ != id@,
        decreases synced@.len() - i,
    {
        if synced[i] == *id {
            assert(views(synced@)[i as int] == id@);
            return true;
        }
        i = i + 1;
    }
    assert(!views(synced@).contains(id@)) by {
        if views(synced@).contains(id@) {
            let k = choose|k: int| 0 <= k < views(synced@).len() && views(synced@)[k] == id@;
            assert(synced@[k]@ == id@);
        }
    }
    false
}

proof fn lemma_synced_rows_push(synced: Set<Seq<char>>, seen: Seq<SyncEvent>, e: SyncEvent)
    requires
        forall|i: int| 0 <= i < seen.len() ==> !stops_sync(synced, #[trigger] seen[i]),
    ensures
        synced_rows(synced, seen.push(e)) == if stops_sync(synced, e) {
            synced_rows(synced, seen)
        } else {
            match e {
                SyncEvent::Track(t) => synced_rows(synced, seen).push(track_row(t)),
                SyncEvent::Failed => synced_rows(synced, seen),
            }
        },
    decreases seen.len(),
{
    if seen.len() == 0 {
        assert(seen.push(e).drop_first() =~= Seq::<SyncEvent>::empty());
        assert(seen.push(e)[0] == e);
        assert(synced_rows(synced, seen) == Seq::<RowView>::empty());
        if let SyncEvent::Track(u) = e {
            if !stops_sync(synced, e) {
                assert(synced_rows(synced, seen.push(e).drop_first()) == Seq::<RowView>::empty());
                assert(synced_rows(synced, seen.push(e)) == seq![track_row(u)] + Seq::<RowView>::empty());
                assert(seq![track_row(u)] + Seq::<RowView>::empty() =~= Seq::<RowView>::empty().push(
                    track_row(u),
                ));
            }
        }
    } else {
        let rest = seen.drop_first();
        assert forall|i: int| 0 <= i < rest.len() implies !stops_sync(synced, #[trigger] rest[i]) by {
            assert(rest[i] == seen[i + 1]);
        }
        lemma_synced_rows_push(synced, rest, e);
        assert(seen.push(e).drop_first() =~= rest.push(e));
        assert(seen.push(e)[0] == seen[0]);
        assert(!stops_sync(synced, seen[0]));
        if let SyncEvent::Track(t) = seen[0] {
            assert(synced_rows(synced, seen) == seq![track_row(t)] + synced_rows(synced, rest));
            assert(synced_rows(synced, seen.push(e)) == seq![track_row(t)] + synced_rows(synced, rest.push(e)));
            if let SyncEvent::Track(u) = e {
                assert((seq![track_row(t)] + synced_rows(synced, rest)).push(track_row(u))
                    =~= seq![track_row(t)] + synced_rows(synced, rest).push(track_row(u)));
            }
        }
    }
}

/// The row of an answer that carries a track.
pub open spec fn event_row(e: SyncEvent) -> RowView {
    match e {
        SyncEvent::Track(t) => track_row(t),
        SyncEvent::Failed => (Seq::empty(), Seq::empty(), Seq::empty(), Seq::empty()),
    }
}

/// A sync stores no track that was synced already: every stored row has
/// the empty id or an id that was not among the synced ones.
pub proof fn lemma_synced_rows_are_new(synced: Set<Seq<char>>, events: Seq<SyncEvent>)
    ensures
        forall|i: int|
            0 <= i < synced_rows(synced, events).len() ==> {
                let id = (#[trigger] synced_rows(synced, events)[i]).0;
                id.len() == 0 || !synced.contains(id)
            },
    decreases events.len(),
{
    if events.len() > 0 && !stops_sync(synced, events[0]) {
        lemma_synced_rows_are_new(synced, events.drop_first());
        if let SyncEvent::Track(t) = events[0] {
            let rest = synced_rows(synced, events.drop_first());
            assert forall|i: int| 0 <= i < synced_rows(synced, events).len() implies {
                let id = (#[trigger] synced_rows(synced, events)[i]).0;
                id.len() == 0 || !synced.contains(id)
            } by {
                if i > 0 {
                    assert(synced_rows(synced, events)[i] == rest[i - 1]);
                }
            }
        }
    }
}

/// A sync stores the liked tracks up to the first answer that stops it
/// (a track synced already, or an error), all of them, in the order the
/// stream gave them: where the first `k` answers do not stop the sync and
/// the next one (if any) does, the rows are those of the first `k` answers.
pub proof fn lemma_synced_rows_prefix(synced: Set<Seq<char>>, events: Seq<SyncEvent>, k: int)
    requires
        0 <= k <= events.len(),
        forall|i: int| 0 <= i < k ==> !stops_sync(synced, #[trigger] events[i]),
        k < events.len() ==> stops_sync(synced, events[k]),
    ensures
        synced_rows(synced, events) == events.take(k).map_values(|e: SyncEvent| event_row(e)),
    decreases k,
{
    if k == 0 {
        assert(events.take(0).map_values(|e: SyncEvent| event_row(e)) =~= Seq::<RowView>::empty());
    } else {
        let rest = events.drop_first();
        assert forall|i: int| 0 <= i < k - 1 implies !stops_sync(synced, #[trigger] rest[i]) by {
            assert(rest[i] == events[i + 1]);
        }
        if k - 1 < rest.len() {
            assert(rest[k - 1] == events[k]);
        }
        lemma_synced_rows_prefix(synced, rest, k - 1);
        assert(!stops_sync(synced, events[0]));
        if let SyncEvent::Track(t) = events[0] {
            assert(seq![track_row(t)] + rest.take(k - 1).map_values(|e: SyncEvent| event_row(e))
                =~= events.take(k).map_values(|e: SyncEvent| event_row(e)));
        }
    }
}

/// Knowing more synced ids can only end a sync sooner: where every id in
/// `fewer` is in `more`, the rows a sync stores with `more` are a prefix of
/// those it stores with `fewer`, for the same answers of the stream.
pub proof fn lemma_more_synced_gives_prefix(
    fewer: Set<Seq<char>>,
    more: Set<Seq<char>>,
    events: Seq<SyncEvent>,
)
    requires
        fewer.subset_of(more),
    ensures
        synced_rows(more, events).len() <= synced_rows(fewer, events).len(),
        synced_rows(more, events) == synced_rows(fewer, events).take(
            synced_rows(more, events).len() as int,
        ),
    decreases events.len(),
{
    let m = synced_rows(more, events);
    let f = synced_rows(fewer, events);
    if events.len() == 0 || stops_sync(fewer, events[0]) {
        assert(stops_sync(fewer, events[0]) ==> stops_sync(more, events[0]));
        assert(m =~= f.take(0));
    } else if stops_sync(more, events[0]) {
        assert(m =~= f.take(0));
    } else {
        lemma_more_synced_gives_prefix(fewer, more, events.drop_first());
        if let SyncEvent::Track(t) = events[0] {
            let m1 = synced_rows(more, events.drop_first());
            let f1 = synced_rows(fewer, events.drop_first());
            assert(m == seq![track_row(t)] + m1);
            assert(f == seq![track_row(t)] + f1);
            assert(m =~= f.take(m.len() as int));
        }
    }
}

/// With no id synced yet and no error from the stream, a sync stores every
/// liked track, in the order of the stream.
pub proof fn lemma_first_sync_keeps_all(events: Seq<SyncEvent>)
    requires
        forall|i: int| 0 <= i < events.len() ==> (#[trigger] events[i]) is Track,
    ensures
        synced_rows(Set::<Seq<char>>::empty(), events) == events.map_values(
            |e: SyncEvent| event_row(e),
        ),
{
    let none = Set::<Seq<char>>::empty();
    assert forall|i: int| 0 <= i < events.len() implies !stops_sync(none, #[trigger] events[i]) by {
        assert(events[i] is Track);
    }
    lemma_synced_rows_prefix(none, events, events.len() as int);
    assert(events.take(events.len() as int) =~= events);
}

/// Whether a sync handed the first `fed` answers of `stream` was fed
/// until it stopped: the stream ran out, or the last answer handed to it
/// stopped it.
pub open spec fn fed_until_stop(synced: Set<Seq<char>>, stream: Seq<SyncEvent>, fed: int) -> bool {
    0 <= fed <= stream.len() && (fed == stream.len() || (fed > 0 && stops_sync(
        synced,
        stream[fed - 1],
    )))
}

/// A sync fed until it stops stores what it would store of the whole
/// stream: the answers it was not handed change nothing.
pub proof fn lemma_rows_settled_at_stop(synced: Set<Seq<char>>, stream: Seq<SyncEvent>, fed: int)
    requires
        fed_until_stop(synced, stream, fed),
    ensures
        synced_rows(synced, stream.take(fed)) == synced_rows(synced, stream),
    decreases stream.len(),
{
    if stream.len() == 0 {
        assert(stream.take(fed) =~= stream);
    } else if fed == stream.len() {
        assert(stream.take(fed) =~= stream);
    } else if stops_sync(synced, stream[0]) {
        assert(stream.take(fed)[0] == stream[0]);
    } else {
        let rest = stream.drop_first();
        assert(fed >= 2) by {
            if fed == 1 {
                assert(stream[fed - 1] == stream[0]);
            }
        }
        assert(rest[fed - 2] == stream[fed - 1]);
        lemma_rows_settled_at_stop(synced, rest, fed - 1);
        assert(stream.take(fed).drop_first() =~= rest.take(fed - 1));
        assert(stream.take(fed)[0] == stream[0]);
    }
}

/// Two syncs of the same stream, each fed until it stops: the one that
/// knows more synced ids stores a prefix of what the other stores.
pub proof fn lemma_two_syncs_of_one_stream(
    fewer: Set<Seq<char>>,
    more: Set<Seq<char>>,
    stream: Seq<SyncEvent>,
    fed_fewer: int,
    fed_more: int,
)
    requires
        fewer.subset_of(more),
        fed_until_stop(fewer, stream, fed_fewer),
        fed_until_stop(more, stream, fed_more),
    ensures
        ({
            let a = synced_rows(more, stream.take(fed_more));
            let b = synced_rows(fewer, stream.take(fed_fewer));
            a.len() <= b.len() && a == b.take(a.len() as int)
        }),
{
    lemma_rows_settled_at_stop(fewer, stream, fed_fewer);
    lemma_rows_settled_at_stop(more, stream, fed_more);
    lemma_more_synced_gives_prefix(fewer, more, stream);
}

/// A first sync (no ids known) fed until the stream runs out, on a stream
/// without errors, stores every liked track in the order of the stream.
pub proof fn lemma_first_sync_of_stream(stream: Seq<SyncEvent>)
    requires
        forall|i: int| 0 <= i < stream.len() ==> (#[trigger] stream[i]) is Track,
    ensures
        fed_until_stop(Set::<Seq<char>>::empty(), stream, stream.len() as int),
        synced_rows(Set::<Seq<char>>::empty(), stream.take(stream.len() as int))
            == stream.map_values(|e: SyncEvent| event_row(e)),
{
    assert(stream.take(stream.len() as int) =~= stream);
    lemma_first_sync_keeps_all(stream);
}

/// What ends a sync, whatever ids are synced already: an error, or a
/// track whose id is non-empty and among the synced ids; nothing else. A
/// track without an id, with the empty id, or with an id not synced yet
/// never ends it.
pub proof fn lemma_what_ends_a_sync(synced: Set<Seq<char>>, t: LikedTrack)
    ensures
        stops_sync(synced, SyncEvent::Failed),
        stops_sync(synced, SyncEvent::Track(t)) <==> (t.id matches Some(id) && id@.len() > 0
            && synced.contains(id@)),
{
}

/// A track that is new to the sync is stored, first, as its id (the empty
/// string where it has none), its name, its first artist (the empty string
/// where it lists none) and when it was liked; the answers after it are
/// stored as they would be on their own.
pub proof fn lemma_new_track_is_stored(
    synced: Set<Seq<char>>,
    t: LikedTrack,
    rest: Seq<SyncEvent>,
)
    requires
        !(t.id matches Some(id) && id@.len() > 0 && synced.contains(id@)),
    ensures
        synced_rows(synced, seq![SyncEvent::Track(t)] + rest) == seq![
            (
                match t.id {
                    Some(id) => id@,
                    None => Seq::<char>::empty(),
                },
                t.name@,
                if t.artist_names@.len() > 0 {
                    t.artist_names@[0]@
                } else {
                    Seq::<char>::empty()
                },
                t.liked_at@,
            ),
        ] + synced_rows(synced, rest),
{
    let s = seq![SyncEvent::Track(t)] + rest;
    assert(s[0] == SyncEvent::Track(t));
    assert(s.drop_first() =~= rest);
}

/// A track synced already ends the sync: nothing from it on is stored.
pub proof fn lemma_known_track_ends_sync(
    synced: Set<Seq<char>>,
    t: LikedTrack,
    rest: Seq<SyncEvent>,
)
    requires
        t.id matches Some(id) && id@.len() > 0 && synced.contains(id@),
    ensures
        synced_rows(synced, seq![SyncEvent::Track(t)] + rest) == Seq::<RowView>::empty(),
{
    let s = seq![SyncEvent::Track(t)] + rest;
    assert(s[0] == SyncEvent::Track(t));
}

} // verus!
