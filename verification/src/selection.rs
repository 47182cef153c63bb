use vstd::prelude::*;

use crate::text::{decimal, decimal_string, strip_prefix, strip_prefix_of, trim, trimmed, views};

verus! {

broadcast use vstd::seq_lib::group_seq_properties;

/// `s` with `x` taken out where it holds `x`, and put in where it does not.
pub open spec fn toggled(s: Set<Seq<char>>, x: Seq<char>) -> Set<Seq<char>> {
    if s.contains(x) {
        s.remove(x)
    } else {
        s.insert(x)
    }
}

/// The tracks picked on the listing page for the playback queue: a set of
/// track ids, listed in the order they were picked.
pub struct Selection {
    ids: Vec<String>,
}

impl Selection {
    /// The selected ids, in the order they were picked.
    pub closed spec fn ids(&self) -> Seq<Seq<char>> {
        views(self.ids@)
    }

    /// The selected ids, as a set.
    pub open spec fn set(&self) -> Set<Seq<char>> {
        self.ids().to_set()
    }

    /// No id is listed twice.
    #[verifier::type_invariant]
    closed spec fn inv(&self) -> bool {
        self.ids().no_duplicates()
    }

    /// An empty selection.
    pub fn new() -> (s: Self)
        ensures
            s.ids() == Seq::<Seq<char>>::empty(),
            s.set() == Set::<Seq<char>>::empty(),
    {
        let s = Selection { ids: Vec::new() };
        assert(s.ids() =~= Seq::<Seq<char>>::empty());
        assert(s.set() =~= Set::<Seq<char>>::empty());
        s
    }

    fn position(&self, id: &String) -> (r: Option<usize>)
        ensures
            match r {
                Some(i) => i < self.ids().len() && self.ids()[i as int] == id@,
                None => !self.ids().contains(id@),
            },
    {
        let mut i: usize = 0;
        while i < self.ids.len()
            invariant
                i <= self.ids@.len(),
                forall|k: int| 0 <= k < i ==> self.ids@[k]@ != id@,
            decreases self.ids@.len() - i,
        {
            if self.ids[i] == *id {
                return Some(i);
            }
            i = i + 1;
        }
        assert(!self.ids().contains(id@)) by {
            if self.ids().contains(id@) {
                let k = choose|k: int| 0 <= k < self.ids().len() && self.ids()[k] == id@;
                assert(self.ids@[k]@ == id@);
            }
        }
        None
    }

    /// Whether `id` is selected.
    pub fn contains(&self, id: &String) -> (b: bool)
        ensures
            b == self.set().contains(id@),
    {
        self.position(id).is_some()
    }

    /// How many tracks are selected.
    pub fn len(&self) -> (n: usize)
        ensures
            n == self.set().len(),
    {
        proof {
            use_type_invariant(self);
            self.ids().unique_seq_to_set();
        }
        self.ids.len()
    }

    /// Selects `id`; says whether it was not selected before.
    pub fn insert(&mut self, id: String) -> (added: bool)
        ensures
            added == !old(self).set().contains(id@),
            final(self).set() == old(self).set().insert(id@),
    {
        proof {
            use_type_invariant(&*self);
        }
        if self.position(&id).is_some() {
            assert(self.set() =~= self.set().insert(id@));
            false
        } else {
            let ghost before = self.ids();
            let mut ids: Vec<String> = Vec::new();
            std::mem::swap(&mut ids, &mut self.ids);
            ids.push(id);
            assert(views(ids@) =~= before.push(id@));
            assert(views(ids@).to_set() =~= before.to_set().insert(id@));
            self.ids = ids;
            true
        }
    }

    /// Unselects `id`; says whether it was selected.
    pub fn remove(&mut self, id: &String) -> (removed: bool)
        ensures
            removed == old(self).set().contains(id@),
            final(self).set() == old(self).set().remove(id@),
    {
        proof {
            use_type_invariant(&*self);
        }
        match self.position(id) {
            None => {
                assert(self.set() =~= self.set().remove(id@));
                false
            },
            Some(i) => {
                let ghost before = self.ids();
                let mut ids: Vec<String> = Vec::new();
                std::mem::swap(&mut ids, &mut self.ids);
                ids.remove(i);
                let ghost after = views(ids@);
                assert(after =~= before.remove(i as int));
                assert forall|a: int, b: int|
                    0 <= a < b < after.len() implies after[a] != after[b] by {
                    let a0 = if a < i { a } else { a + 1 };
                    let b0 = if b < i { b } else { b + 1 };
                    assert(after[a] == before[a0]);
                    assert(after[b] == before[b0]);
                }
                assert forall|x: Seq<char>| #[trigger]
                    after.to_set().contains(x) <==> before.to_set().remove(id@).contains(x) by {
                    if after.to_set().contains(x) {
                        let k = choose|k: int| 0 <= k < after.len() && after[k] == x;
                        let k0 = if k < i { k } else { k + 1 };
                        assert(before[k0] == x);
                        assert(k0 != i);
                    }
                    if before.to_set().remove(id@).contains(x) {
                        let k = choose|k: int| 0 <= k < before.len() && before[k] == x;
                        assert(k != i);
                        let k1 = if k < i { k } else { k - 1 };
                        assert(after[k1] == x);
                    }
                }
                assert(after.to_set() =~= before.to_set().remove(id@));
                self.ids = ids;
                true
            },
        }
    }

    /// Unselects `id` where it was selected, and selects it otherwise.
    pub fn toggle(&mut self, id: String)
        ensures
            final(self).set() == toggled(old(self).set(), id@),
    {
        if !self.remove(&id) {
            self.insert(id);
        }
    }

    /// Unselects every track.
    pub fn clear(&mut self)
        ensures
            final(self).set() == Set::<Seq<char>>::empty(),
            final(self).ids() == Seq::<Seq<char>>::empty(),
    {
        self.ids = Vec::new();
        assert(self.ids() =~= Seq::<Seq<char>>::empty());
        assert(self.set() =~= Set::<Seq<char>>::empty());
    }

    /// The selected ids, in the order they were picked.
    pub fn to_vec(&self) -> (v: Vec<String>)
        ensures
            views(v@) == self.ids(),
            self.ids().no_duplicates(),
    {
        proof {
            use_type_invariant(self);
        }
        crate::text::clone_strings(&self.ids)
    }
}

/// Toggling the same track twice leaves the selection as it was.
pub proof fn lemma_toggle_twice(s: Set<Seq<char>>, x: Seq<char>)
    ensures
        toggled(toggled(s, x), x) == s,
{
    if s.contains(x) {
        assert(s.remove(x).insert(x) =~= s);
    } else {
        assert(s.insert(x).remove(x) =~= s);
    }
}

/// Toggling a track changes whether that track is selected, and nothing
/// else.
pub proof fn lemma_toggle_flips_only(s: Set<Seq<char>>, x: Seq<char>, y: Seq<char>)
    ensures
        toggled(s, x).contains(y) == if y == x {
            !s.contains(x)
        } else {
            s.contains(y)
        },
{
}

/// Toggling a track adds one to the size of a finite selection or takes
/// one from it.
pub proof fn lemma_toggle_len(s: Set<Seq<char>>, x: Seq<char>)
    requires
        s.finite(),
    ensures
        toggled(s, x).len() == if s.contains(x) {
            s.len() - 1
        } else {
            s.len() + 1int
        },
{
}

/// The fragment that reports how many tracks are selected.
pub open spec fn selection_count_text(n: nat) -> Seq<char> {
    "<span id='selection-count'>"@ + decimal(n) + " selected</span>"@
}

/// The fragment that reports that `n` tracks are selected.
pub fn selection_count_html(n: usize) -> (r: String)
    ensures
        r@ == selection_count_text(n as nat),
{
    let mut r = String::from_str("<span id='selection-count'>");
    let digits = decimal_string(n);
    r.append(digits.as_str());
    r.append(" selected</span>");
    r
}

/// Toggles whether `track_id` is selected, and reports how many tracks are
/// selected then.
pub fn toggle_select(selection: &mut Selection, track_id: String) -> (r: String)
    ensures
        final(selection).set() == toggled(old(selection).set(), track_id@),
        r@ == selection_count_text(final(selection).set().len()),
{
    selection.toggle(track_id);
    let n = selection.len();
    selection_count_html(n)
}

// ---------------------------------------------------------------------------
// The playback queue
// ---------------------------------------------------------------------------

/// Whether `c` is an ASCII letter or digit.
pub open spec fn ascii_alphanumeric(c: char) -> bool {
    ('0' <= c && c <= '9') || ('a' <= c && c <= 'z') || ('A' <= c && c <= 'Z')
}

/// Whether `id` is accepted as a Spotify track id: all its characters are
/// ASCII letters or digits.
pub open spec fn valid_track_id(id: Seq<char>) -> bool {
    forall|i: int| 0 <= i < id.len() ==> ascii_alphanumeric(#[trigger] id[i])
}

/// `rspotify::model::TrackId::from_id`: its source accepts an id exactly
/// where every character is an ASCII letter or digit (so the empty id
/// too), and refuses it otherwise.
#[verifier::external_body]
fn track_id_accepted(id: &str) -> (ok: bool)
    ensures
        ok == valid_track_id(id@),
{
    rspotify::model::TrackId::from_id(id).is_ok()
}

/// The id that a selected entry is queued under: where, without the white
/// space around it, it is a track URI, the id that the URI names;
/// otherwise the entry as it stands.
pub open spec fn queue_id(entry: Seq<char>) -> Seq<char> {
    match strip_prefix(trim(entry), "spotify:track:"@) {
        Some(id) => id,
        None => entry,
    }
}

/// The id that a selected entry is queued under.
pub fn queue_track_id(entry: &String) -> (r: String)
    ensures
        r@ == queue_id(entry@),
{
    let t = trimmed(entry.as_str());
    match strip_prefix_of(t.as_str(), "spotify:track:") {
        Some(id) => id,
        None => entry.clone(),
    }
}

/// The plan for one selected entry: the track id to queue, or the entry
/// that is skipped as invalid.
pub open spec fn queue_step(entry: Seq<char>) -> Result<Seq<char>, Seq<char>> {
    if valid_track_id(queue_id(entry)) {
        Ok(queue_id(entry))
    } else {
        Err(entry)
    }
}

pub open spec fn result_view(r: Result<String, String>) -> Result<Seq<char>, Seq<char>> {
    match r {
        Ok(s) => Ok(s@),
        Err(s) => Err(s@),
    }
}

/// For each selected entry, in order and once each: `Ok` with the id to
/// queue, or `Err` with the entry where it is no valid track id.
pub fn queue_plan(selection: &Selection) -> (plan: Vec<Result<String, String>>)
    ensures
        selection.ids().no_duplicates(),
        plan@.len() == selection.ids().len(),
        forall|i: int|
            0 <= i < plan@.len() ==> result_view(#[trigger] plan@[i]) == queue_step(
                selection.ids()[i],
            ),
{
    proof {
        use_type_invariant(selection);
    }
    let mut plan: Vec<Result<String, String>> = Vec::new();
    let n = selection.ids.len();
    for i in 0..n
        invariant
            n == selection.ids@.len(),
            plan@.len() == i,
            forall|k: int|
                0 <= k < i ==> result_view(#[trigger] plan@[k]) == queue_step(selection.ids()[k]),
    {
        let entry = &selection.ids[i];
        let id = queue_track_id(entry);
        if track_id_accepted(id.as_str()) {
            plan.push(Ok(id));
        } else {
            plan.push(Err(entry.clone()));
        }
    }
    plan
}

} // verus!
