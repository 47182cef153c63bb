use vstd::prelude::*;

use crate::models::TrackDisplay;
use crate::text::{chars_of, trim, trimmed, views};

verus! {

// ---------------------------------------------------------------------------
// Tag names
// ---------------------------------------------------------------------------

/// What `str::to_lowercase` makes of `s` (Unicode lower-case mapping,
/// which may change the number of characters and depends on context).
pub uninterp spec fn lowercase(s: Seq<char>) -> Seq<char>;

/// `str::to_lowercase`: the result is `lowercase` of the argument.
#[verifier::external_body]
pub(crate) fn to_lowercase(s: &str) -> (r: String)
    ensures
        r@ == lowercase(s@),
{
    s.to_lowercase()
}

/// The form in which a tag name is stored: without surrounding white
/// space, in lower case.
pub open spec fn normalized_tag(name: Seq<char>) -> Seq<char> {
    lowercase(trim(name))
}

/// The name `name` stands for as a tag.
pub fn normalize_tag_name(name: &str) -> (r: String)
    ensures
        r@ == normalized_tag(name@),
        r@ == lowercase(trim(name@)),
{
    let t = trimmed(name);
    to_lowercase(t.as_str())
}

/// A tag is stored under its name as `str::trim` and then
/// `str::to_lowercase` make it, whatever characters that holds: trimming
/// drops only white space at the ends (see
/// `text::lemma_trim_removes_white_ends`), and nothing else is dropped or
/// changed.
pub proof fn lemma_tag_name_is_trimmed_lowercase(name: Seq<char>)
    ensures
        normalized_tag(name) == lowercase(trim(name)),
{
}

/// Whether a normalized name is created as a tag: only a non-empty one is.
pub fn tag_to_create(normalized: String) -> (r: Option<String>)
    ensures
        normalized@.len() == 0 ==> r is None,
        normalized@.len() > 0 ==> r == Some(normalized),
{
    if normalized.as_str().is_empty() {
        None
    } else {
        Some(normalized)
    }
}

/// The tag that a request to create `name` creates, if any: the normalized
/// name, where that is not empty.
pub fn new_tag_name(name: &str) -> (r: Option<String>)
    ensures
        normalized_tag(name@).len() == 0 ==> r is None,
        normalized_tag(name@).len() > 0 ==> (r matches Some(t) && t@ == normalized_tag(name@)),
        lowercase(trim(name@)).len() == 0 ==> r is None,
        lowercase(trim(name@)).len() > 0 ==> (r matches Some(t) && t@ == lowercase(trim(name@))),
{
    tag_to_create(normalize_tag_name(name))
}

// ---------------------------------------------------------------------------
// Stored tag lists
//
// The listing reads the tags of a track as one column: each tag name with
// every backslash and comma escaped by a backslash, the names joined with
// commas.
// ---------------------------------------------------------------------------

/// How one character of a tag name is written in a tag list.
pub open spec fn escape_char(c: char) -> Seq<char> {
    if c == '\\' || c == ',' {
        seq!['\\', c]
    } else {
        seq![c]
    }
}

/// How a tag name is written in a tag list.
pub open spec fn escape_tag(name: Seq<char>) -> Seq<char>
    decreases name.len(),
{
    if name.len() == 0 {
        Seq::<char>::empty()
    } else {
        escape_char(name[0]) + escape_tag(name.drop_first())
    }
}

/// The tag list of the tags `names`: each written escaped, joined by commas.
pub open spec fn encode_tags(names: Seq<Seq<char>>) -> Seq<char>
    decreases names.len(),
{
    if names.len() == 0 {
        Seq::<char>::empty()
    } else if names.len() == 1 {
        escape_tag(names[0])
    } else {
        escape_tag(names[0]) + seq![','] + encode_tags(names.drop_first())
    }
}

/// Reading the rest `s` of a tag list, with the piece `current` begun and
/// the pieces `done` finished: a backslash takes the next character as it
/// stands (a backslash at the very end stands for itself), a comma ends a
/// piece, and any other character adds to the piece.
pub open spec fn decode_pieces(s: Seq<char>, current: Seq<char>, done: Seq<Seq<char>>) -> Seq<
    Seq<char>,
>
    decreases s.len(),
{
    if s.len() == 0 {
        done.push(current)
    } else if s[0] == '\\' && s.len() >= 2 {
        decode_pieces(s.subrange(2, s.len() as int), current.push(s[1]), done)
    } else if s[0] == ',' {
        decode_pieces(s.drop_first(), Seq::<char>::empty(), done.push(current))
    } else {
        decode_pieces(s.drop_first(), current.push(s[0]), done)
    }
}

/// Whether a piece of a list is a tag: it is not empty.
pub open spec fn is_tag(t: Seq<char>) -> bool {
    t.len() > 0
}

/// The pieces of a list that are tags.
pub open spec fn kept_tags(pieces: Seq<Seq<char>>) -> Seq<Seq<char>> {
    pieces.filter(|t: Seq<char>| is_tag(t))
}

/// The tags of a stored tag list: its non-empty pieces, in order.
pub open spec fn tag_names(s: Seq<char>) -> Seq<Seq<char>> {
    kept_tags(decode_pieces(s, Seq::<char>::empty(), Seq::<Seq<char>>::empty()))
}

proof fn lemma_filter_push(s: Seq<Seq<char>>, e: Seq<char>)
    ensures
        s.push(e).filter(|t: Seq<char>| is_tag(t)) == if is_tag(e) {
            s.filter(|t: Seq<char>| is_tag(t)).push(e)
        } else {
            s.filter(|t: Seq<char>| is_tag(t))
        },
{
    reveal(Seq::filter);
    assert(s.push(e).drop_last() =~= s);
}

/// The tags of a stored tag list; none where there is no list.
pub fn parse_tag_list(tag_list: Option<String>) -> (tags: Vec<String>)
    ensures
        views(tags@) == match tag_list {
            Some(s) => tag_names(s@),
            None => Seq::<Seq<char>>::empty(),
        },
{
    match tag_list {
        None => Vec::new(),
        Some(s) => split_tags(s.as_str()),
    }
}

/// The tags of the tag list `s`.
pub fn split_tags(s: &str) -> (tags: Vec<String>)
    ensures
        views(tags@) == tag_names(s@),
{
    let cs = chars_of(s);
    let n = cs.len();
    let mut tags: Vec<String> = Vec::new();
    let mut current = String::new();
    let ghost mut done: Seq<Seq<char>> = Seq::empty();
    let mut i: usize = 0;
    assert(s@.subrange(0, n as int) =~= s@);
    assert(views(tags@) =~= kept_tags(done)) by {
        reveal(Seq::filter);
    }
    while i < n
        invariant
            i <= n,
            n == s@.len(),
            cs@ == s@,
            decode_pieces(s@, Seq::<char>::empty(), Seq::<Seq<char>>::empty()) == decode_pieces(
                s@.subrange(i as int, n as int),
                current@,
                done,
            ),
            views(tags@) == kept_tags(done),
        decreases n - i,
    {
        let ghost rest = s@.subrange(i as int, n as int);
        assert(rest[0] == cs@[i as int]);
        if cs[i] == '\\' && i + 1 < n {
            assert(rest[1] == cs@[i + 1]);
            assert(rest.subrange(2, rest.len() as int) =~= s@.subrange(i + 2, n as int));
            let ghost before = current@;
            current.append(s.substring_char(i + 1, i + 2));
            assert(current@ =~= before.push(rest[1]));
            i = i + 2;
        } else if cs[i] == ',' {
            assert(rest.drop_first() =~= s@.subrange(i + 1, n as int));
            let ghost piece = current@;
            proof {
                lemma_filter_push(done, piece);
            }
            if !current.as_str().is_empty() {
                tags.push(current);
            }
            proof {
                assert(views(tags@) =~= kept_tags(done.push(piece)));
                done = done.push(piece);
            }
            current = String::new();
            i = i + 1;
        } else {
            assert(rest.drop_first() =~= s@.subrange(i + 1, n as int));
            let ghost before = current@;
            current.append(s.substring_char(i, i + 1));
            assert(current@ =~= before.push(rest[0]));
            i = i + 1;
        }
    }
    let ghost piece = current@;
    assert(s@.subrange(n as int, n as int) =~= Seq::<char>::empty());
    proof {
        lemma_filter_push(done, piece);
    }
    if !current.as_str().is_empty() {
        tags.push(current);
    }
    assert(views(tags@) =~= kept_tags(done.push(piece)));
    tags
}

/// A track of the listing, from the columns of its row: the stored tag
/// list, where there is one, gives its tags.
pub fn track_display(id: String, title: String, artist: String, tag_list: Option<String>) -> (t:
    TrackDisplay)
    ensures
        t.id == id,
        t.title == title,
        t.artist == artist,
        views(t.tags@) == match tag_list {
            Some(s) => tag_names(s@),
            None => Seq::<Seq<char>>::empty(),
        },
{
    TrackDisplay { id, title, artist, tags: parse_tag_list(tag_list) }
}

// ---------------------------------------------------------------------------
// Laws of tag lists
// ---------------------------------------------------------------------------

proof fn lemma_decode_escaped(
    name: Seq<char>,
    rest: Seq<char>,
    current: Seq<char>,
    done: Seq<Seq<char>>,
)
    ensures
        decode_pieces(escape_tag(name) + rest, current, done) == decode_pieces(
            rest,
            current + name,
            done,
        ),
    decreases name.len(),
{
    if name.len() == 0 {
        assert(escape_tag(name) + rest =~= rest);
        assert(current + name =~= current);
    } else {
        let c = name[0];
        let tail = name.drop_first();
        let r = escape_tag(tail) + rest;
        let s = escape_tag(name) + rest;
        assert(s =~= escape_char(c) + r);
        lemma_decode_escaped(tail, rest, current.push(c), done);
        assert(current.push(c) + tail =~= current + name);
        if c == '\\' || c == ',' {
            assert(s[0] == '\\');
            assert(s[1] == c);
            assert(s.subrange(2, s.len() as int) =~= r);
        } else {
            assert(s[0] == c);
            assert(s.drop_first() =~= r);
        }
    }
}

proof fn lemma_decode_encoded(names: Seq<Seq<char>>, done: Seq<Seq<char>>)
    requires
        names.len() > 0,
    ensures
        decode_pieces(encode_tags(names), Seq::<char>::empty(), done) == done + names,
    decreases names.len(),
{
    let empty = Seq::<char>::empty();
    if names.len() == 1 {
        lemma_decode_escaped(names[0], empty, empty, done);
        assert(escape_tag(names[0]) + empty =~= escape_tag(names[0]));
        assert(empty + names[0] =~= names[0]);
        assert(done.push(names[0]) =~= done + names);
    } else {
        let rest = names.drop_first();
        let tail = seq![','] + encode_tags(rest);
        assert(encode_tags(names) =~= escape_tag(names[0]) + tail);
        lemma_decode_escaped(names[0], tail, empty, done);
        assert(empty + names[0] =~= names[0]);
        assert(tail.drop_first() =~= encode_tags(rest));
        lemma_decode_encoded(rest, done.push(names[0]));
        assert(done.push(names[0]) + rest =~= done + names);
    }
}

proof fn lemma_filter_all_tags(names: Seq<Seq<char>>)
    requires
        forall|i: int| 0 <= i < names.len() ==> is_tag(#[trigger] names[i]),
    ensures
        kept_tags(names) == names,
    decreases names.len(),
{
    if names.len() > 0 {
        let init = names.drop_last();
        assert forall|i: int| 0 <= i < init.len() implies is_tag(#[trigger] init[i]) by {
            assert(init[i] == names[i]);
        }
        lemma_filter_all_tags(init);
        assert(is_tag(names[names.len() - 1]));
        lemma_filter_push(init, names.last());
        assert(init.push(names.last()) =~= names);
    }
}

/// Any tags, written as a stored tag list, read back as the same tags in
/// the same order: every tag that `new_tag_name` creates is non-empty, and
/// commas and backslashes in names survive.
pub proof fn lemma_tag_list_round_trip(names: Seq<Seq<char>>)
    requires
        forall|i: int| 0 <= i < names.len() ==> (#[trigger] names[i]).len() > 0,
    ensures
        tag_names(encode_tags(names)) == names,
{
    let empty = Seq::<Seq<char>>::empty();
    if names.len() == 0 {
        assert(decode_pieces(encode_tags(names), Seq::<char>::empty(), empty) == empty.push(
            Seq::<char>::empty(),
        ));
        lemma_filter_push(empty, Seq::<char>::empty());
        assert(kept_tags(empty) =~= empty) by {
            reveal(Seq::filter);
        }
        assert(tag_names(encode_tags(names)) =~= names);
    } else {
        lemma_decode_encoded(names, empty);
        assert(empty + names =~= names);
        assert forall|i: int| 0 <= i < names.len() implies is_tag(#[trigger] names[i]) by {
            assert(names[i].len() > 0);
        }
        lemma_filter_all_tags(names);
    }
}

} // verus!
