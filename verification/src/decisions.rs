//! The decisions log: one CSV row per decided track.

use vstd::prelude::*;

use crate::provider::TrackInfo;
use crate::text::{append_str, chars_of, push_char};

verus! {

/// What was decided about a track.
#[derive(Debug, Clone, Copy, PartialEq, Eq, Structural)]
pub enum Decision {
    Keep,
    Favourite,
    Unfavourite,
    Dislike,
}

/// The word a decision is logged as.
pub open spec fn decision_text(d: Decision) -> Seq<char> {
    match d {
        Decision::Keep => "keep"@,
        Decision::Favourite => "favourite"@,
        Decision::Unfavourite => "unfavourite"@,
        Decision::Dislike => "dislike"@,
    }
}

impl Decision {
    /// The word the decision is logged as.
    pub fn as_str(self) -> (s: &'static str)
        ensures
            s@ == decision_text(self),
    {
        match self {
            Decision::Keep => "keep",
            Decision::Favourite => "favourite",
            Decision::Unfavourite => "unfavourite",
            Decision::Dislike => "dislike",
        }
    }
}

/// Different decisions are logged as different words.
pub proof fn lemma_decision_words_distinct(a: Decision, b: Decision)
    requires
        a != b,
    ensures
        decision_text(a) != decision_text(b),
{
    reveal_strlit("keep");
    reveal_strlit("favourite");
    reveal_strlit("unfavourite");
    reveal_strlit("dislike");
    assert(decision_text(a).len() != decision_text(b).len() || decision_text(a)[0] != decision_text(
        b,
    )[0]);
}

/// The file the decisions are appended to, relative to the working directory.
pub fn decisions_path() -> (p: String)
    ensures
        p@ == "decisions.csv"@,
{
    String::from_str("decisions.csv")
}

/// The header line of the decisions file.
pub open spec fn header_line() -> Seq<char> {
    "title,album,artist,decision"@
}

/// A character that makes a CSV field need quotes.
pub open spec fn is_csv_special(c: char) -> bool {
    c == ',' || c == '"' || c == '\n' || c == '\r'
}

/// A field holds a comma, a double quote or a line break.
pub open spec fn needs_quotes(v: Seq<char>) -> bool {
    exists|i: int| 0 <= i < v.len() && is_csv_special(#[trigger] v[i])
}

/// The text with every double quote doubled.
pub open spec fn doubled_quotes(v: Seq<char>) -> Seq<char>
    decreases v.len(),
{
    if v.len() == 0 {
        Seq::empty()
    } else if v.last() == '"' {
        doubled_quotes(v.drop_last()) + seq!['"', '"']
    } else {
        doubled_quotes(v.drop_last()).push(v.last())
    }
}

/// A value as a CSV field: quoted, with its quotes doubled, when it holds a
/// comma, a quote or a line break; as it is otherwise.
pub open spec fn csv_field(v: Seq<char>) -> Seq<char> {
    if needs_quotes(v) {
        seq!['"'] + doubled_quotes(v) + seq!['"']
    } else {
        v
    }
}

/// Escapes a value for one CSV field.
pub fn csv_escape(value: &str) -> (s: String)
    ensures
        s@ == csv_field(value@),
{
    let chars = chars_of(value);
    let mut special = false;
    let mut i: usize = 0;
    while i < chars.len()
        invariant
            chars@ == value@,
            i <= chars.len(),
            special == exists|k: int| 0 <= k < i && is_csv_special(#[trigger] chars@[k]),
        decreases chars.len() - i,
    {
        let c = chars[i];
        if c == ',' || c == '"' || c == '\n' || c == '\r' {
            special = true;
        }
        i = i + 1;
    }
    if !special {
        return String::from_str(value);
    }
    let mut s = String::new();
    push_char(&mut s, '"');
    let mut j: usize = 0;
    while j < chars.len()
        invariant
            chars@ == value@,
            j <= chars.len(),
            s@ == seq!['"'] + doubled_quotes(chars@.take(j as int)),
        decreases chars.len() - j,
    {
        let c = chars[j];
        proof {
            assert(chars@.take(j + 1).drop_last() =~= chars@.take(j as int));
            assert(chars@.take(j + 1).last() == c);
        }
        if c == '"' {
            push_char(&mut s, '"');
            push_char(&mut s, '"');
        } else {
            push_char(&mut s, c);
        }
        proof {
            assert(s@ =~= seq!['"'] + doubled_quotes(chars@.take(j + 1)));
        }
        j = j + 1;
    }
    push_char(&mut s, '"');
    proof {
        assert(chars@.take(chars@.len() as int) =~= chars@);
    }
    s
}

/// The CSV row for a decided track: title, album, artist, decision.
pub open spec fn decision_row(track: TrackInfo, decision: Decision) -> Seq<char> {
    csv_field(track.name@) + ","@ + csv_field(track.album@) + ","@ + csv_field(track.artist@)
        + ","@ + decision_text(decision)
}

/// The text appended to the decisions file for one decision: the header line
/// first when the file is missing or empty, then the track's row; each line
/// ends with a line feed.
pub fn append_text(needs_header: bool, track: &TrackInfo, decision: Decision) -> (s: String)
    ensures
        s@ == (if needs_header {
            header_line() + "\n"@
        } else {
            Seq::empty()
        }) + decision_row(*track, decision) + "\n"@,
{
    let mut s = String::new();
    if needs_header {
        append_str(&mut s, "title,album,artist,decision");
        append_str(&mut s, "\n");
    }
    let name = csv_escape(track.name.as_str());
    let album = csv_escape(track.album.as_str());
    let artist = csv_escape(track.artist.as_str());
    append_str(&mut s, name.as_str());
    append_str(&mut s, ",");
    append_str(&mut s, album.as_str());
    append_str(&mut s, ",");
    append_str(&mut s, artist.as_str());
    append_str(&mut s, ",");
    append_str(&mut s, decision.as_str());
    append_str(&mut s, "\n");
    proof {
        assert(s@ =~= (if needs_header {
            header_line() + "\n"@
        } else {
            Seq::empty()
        }) + decision_row(*track, decision) + "\n"@);
    }
    s
}

} // verus!

verus! {

/// The text can stand between the quotes of a quoted CSV field: every
/// double quote in it is doubled.
pub open spec fn csv_body_ok(t: Seq<char>) -> bool
    decreases t.len(),
{
    if t.len() == 0 {
        true
    } else if t[0] == '"' {
        t.len() >= 2 && t[1] == '"' && csv_body_ok(t.skip(2))
    } else {
        csv_body_ok(t.skip(1))
    }
}

/// What a CSV reader takes the inside of a quoted field for: each doubled
/// quote stands for one quote.
pub open spec fn csv_decoded(t: Seq<char>) -> Seq<char>
    decreases t.len(),
{
    if t.len() == 0 {
        Seq::empty()
    } else if t[0] == '"' && t.len() >= 2 {
        seq!['"'] + csv_decoded(t.skip(2))
    } else {
        seq![t[0]] + csv_decoded(t.skip(1))
    }
}

proof fn lemma_csv_decoded_concat(p: Seq<char>, q: Seq<char>)
    requires
        csv_body_ok(p),
    ensures
        csv_body_ok(p + q) == csv_body_ok(q),
        csv_decoded(p + q) == csv_decoded(p) + csv_decoded(q),
    decreases p.len(),
{
    if p.len() == 0 {
        assert(p + q =~= q);
        assert(csv_decoded(p) + csv_decoded(q) =~= csv_decoded(q));
    } else if p[0] == '"' {
        assert((p + q).skip(2) =~= p.skip(2) + q);
        assert((p + q)[0] == p[0] && (p + q)[1] == p[1]);
        lemma_csv_decoded_concat(p.skip(2), q);
        assert(csv_decoded(p + q) =~= csv_decoded(p) + csv_decoded(q));
    } else {
        assert((p + q).skip(1) =~= p.skip(1) + q);
        assert((p + q)[0] == p[0]);
        lemma_csv_decoded_concat(p.skip(1), q);
        assert(csv_decoded(p + q) =~= csv_decoded(p) + csv_decoded(q));
    }
}

proof fn lemma_doubled_quotes_read_back(v: Seq<char>)
    ensures
        csv_body_ok(doubled_quotes(v)),
        csv_decoded(doubled_quotes(v)) == v,
    decreases v.len(),
{
    if v.len() == 0 {
        assert(csv_decoded(doubled_quotes(v)) =~= v);
    } else {
        let c = v.last();
        let e: Seq<char> = if c == '"' {
            seq!['"', '"']
        } else {
            seq![c]
        };
        lemma_doubled_quotes_read_back(v.drop_last());
        if c == '"' {
            assert(e.skip(2) =~= Seq::<char>::empty());
            assert(csv_body_ok(e.skip(2)));
            assert(csv_decoded(e) =~= seq!['"'] + csv_decoded(e.skip(2)));
        } else {
            assert(e.skip(1) =~= Seq::<char>::empty());
            assert(csv_body_ok(e.skip(1)));
            assert(csv_decoded(e) =~= seq![c] + csv_decoded(e.skip(1)));
        }
        assert(doubled_quotes(v) =~= doubled_quotes(v.drop_last()) + e);
        lemma_csv_decoded_concat(doubled_quotes(v.drop_last()), e);
        assert(v.drop_last() + seq![c] =~= v);
    }
}

/// A value becomes a CSV field that reads back as the value: a value with a
/// comma, a double quote or a line break is written between double quotes
/// with its quotes doubled, and a CSV reader takes the inside back to the
/// value; any other value is written as it is.
pub proof fn lemma_csv_field_reads_back(v: Seq<char>)
    ensures
        (exists|i: int|
            0 <= i < v.len() && (v[i] == ',' || v[i] == '"' || v[i] == '\n' || v[i] == '\r'))
            ==> ({
            let f = csv_field(v);
            &&& f.len() >= 2
            &&& f[0] == '"'
            &&& f.last() == '"'
            &&& csv_body_ok(f.subrange(1, f.len() - 1))
            &&& csv_decoded(f.subrange(1, f.len() - 1)) == v
        }),
        (forall|i: int|
            0 <= i < v.len() ==> v[i] != ',' && v[i] != '"' && v[i] != '\n' && v[i] != '\r')
            ==> csv_field(v) == v,
{
    lemma_doubled_quotes_read_back(v);
    if exists|i: int|
        0 <= i < v.len() && (v[i] == ',' || v[i] == '"' || v[i] == '\n' || v[i] == '\r') {
        let i = choose|i: int|
            0 <= i < v.len() && (v[i] == ',' || v[i] == '"' || v[i] == '\n' || v[i] == '\r');
        assert(is_csv_special(v[i]));
        let f = csv_field(v);
        assert(f.subrange(1, f.len() - 1) =~= doubled_quotes(v));
    } else {
        assert(!needs_quotes(v));
    }
}

} // verus!
