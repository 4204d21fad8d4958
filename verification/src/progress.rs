//! The saved sweep position: the last completed track.

use vstd::prelude::*;

use crate::provider::{ResumeCursor, TrackInfo};
use crate::text::{append_str, chars_of, push_char};

verus! {

/// Last completed track — enough to resume and to read by eye.
#[derive(Debug, Clone, PartialEq, Eq)]
pub struct ProgressEntry {
    pub id: String,
    pub date_added: Option<String>,
    pub name: String,
    pub artist: String,
}

/// The entry saved after a track is decided.
pub open spec fn progress_of(track: TrackInfo) -> ProgressEntry {
    ProgressEntry {
        id: track.id,
        date_added: track.date_added,
        name: track.name,
        artist: track.artist,
    }
}

impl ProgressEntry {
    /// The entry for a decided track: its id, date added, name and artist.
    pub fn from_track(track: &TrackInfo) -> (e: Self)
        ensures
            e == progress_of(*track),
    {
        let date_added = match &track.date_added {
            Some(d) => Some(d.clone()),
            None => None,
        };
        ProgressEntry {
            id: track.id.clone(),
            date_added,
            name: track.name.clone(),
            artist: track.artist.clone(),
        }
    }

    /// The resume cursor of the entry: its id and date added.
    pub fn cursor(&self) -> (c: ResumeCursor)
        ensures
            c.id == self.id,
            c.date_added == self.date_added,
    {
        let date_added = match &self.date_added {
            Some(d) => Some(d.clone()),
            None => None,
        };
        ResumeCursor { id: self.id.clone(), date_added }
    }
}

/// The file that keeps the progress, relative to the working directory.
pub fn progress_path() -> (p: String)
    ensures
        p@ == "progress.json"@,
{
    String::from_str("progress.json")
}

/// The file in which earlier versions kept the bare id of the last track.
pub fn legacy_progress_path() -> (p: String)
    ensures
        p@ == "progress"@,
{
    String::from_str("progress")
}

/// The characters with the Unicode `White_Space` property, the property that
/// `char::is_whitespace` tests: U+0009 to U+000D, U+0020, U+0085, U+00A0,
/// U+1680, U+2000 to U+200A, U+2028, U+2029, U+202F, U+205F and U+3000
/// (the `White_Space` entries of the Unicode Character Database's PropList.txt).
pub open spec fn unicode_white_space(c: char) -> bool {
    ||| '\u{9}' <= c <= '\u{d}'
    ||| c == ' '
    ||| c == '\u{85}'
    ||| c == '\u{a0}'
    ||| c == '\u{1680}'
    ||| '\u{2000}' <= c <= '\u{200a}'
    ||| c == '\u{2028}'
    ||| c == '\u{2029}'
    ||| c == '\u{202f}'
    ||| c == '\u{205f}'
    ||| c == '\u{3000}'
}

/// Whether the character has the Unicode `White_Space` property.
pub fn is_white_space(c: char) -> (b: bool)
    ensures
        b == unicode_white_space(c),
{
    ('\u{9}' <= c && c <= '\u{d}') || c == ' ' || c == '\u{85}' || c == '\u{a0}' || c
        == '\u{1680}' || ('\u{2000}' <= c && c <= '\u{200a}') || c == '\u{2028}' || c
        == '\u{2029}' || c == '\u{202f}' || c == '\u{205f}' || c == '\u{3000}'
}

/// The text without its leading white space.
pub open spec fn trim_start(s: Seq<char>) -> Seq<char>
    decreases s.len(),
{
    if s.len() > 0 && unicode_white_space(s[0]) {
        trim_start(s.drop_first())
    } else {
        s
    }
}

/// The text without its trailing white space.
pub open spec fn trim_end(s: Seq<char>) -> Seq<char>
    decreases s.len(),
{
    if s.len() > 0 && unicode_white_space(s.last()) {
        trim_end(s.drop_last())
    } else {
        s
    }
}

/// The text without leading and trailing white space, as `str::trim` gives it.
pub open spec fn trimmed(s: Seq<char>) -> Seq<char> {
    trim_end(trim_start(s))
}

proof fn lemma_trim_start(s: Seq<char>, i: int)
    requires
        0 <= i <= s.len(),
        forall|k: int| 0 <= k < i ==> unicode_white_space(#[trigger] s[k]),
        i < s.len() ==> !unicode_white_space(s[i]),
    ensures
        trim_start(s) == s.skip(i),
    decreases i,
{
    if i == 0 {
        assert(s.skip(0) =~= s);
    } else {
        assert(unicode_white_space(s[0]));
        assert forall|k: int| 0 <= k < i - 1 implies unicode_white_space(
            #[trigger] s.drop_first()[k],
        ) by {
            assert(s.drop_first()[k] == s[k + 1]);
        }
        lemma_trim_start(s.drop_first(), i - 1);
        assert(s.drop_first().skip(i - 1) =~= s.skip(i));
    }
}

proof fn lemma_trim_end(t: Seq<char>, k: int)
    requires
        0 <= k <= t.len(),
        forall|m: int| k <= m < t.len() ==> unicode_white_space(#[trigger] t[m]),
        k > 0 ==> !unicode_white_space(t[k - 1]),
    ensures
        trim_end(t) == t.take(k),
    decreases t.len(),
{
    if k == t.len() {
        assert(t.take(k) =~= t);
    } else {
        assert(unicode_white_space(t[t.len() - 1]));
        assert forall|m: int| k <= m < t.drop_last().len() implies unicode_white_space(
            #[trigger] t.drop_last()[m],
        ) by {
            assert(t.drop_last()[m] == t[m]);
        }
        lemma_trim_end(t.drop_last(), k);
        assert(t.drop_last().take(k) =~= t.take(k));
    }
}

/// Trims leading and trailing white space, as `str::trim` does.
pub fn trim_text(s: &str) -> (r: String)
    ensures
        r@ == trimmed(s@),
{
    let chars = chars_of(s);
    let mut i: usize = 0;
    while i < chars.len() && is_white_space(chars[i])
        invariant
            chars@ == s@,
            i <= chars.len(),
            forall|k: int| 0 <= k < i ==> unicode_white_space(#[trigger] chars@[k]),
        decreases chars.len() - i,
    {
        i = i + 1;
    }
    proof {
        lemma_trim_start(s@, i as int);
    }
    let mut j: usize = chars.len();
    while j > i && is_white_space(chars[j - 1])
        invariant
            chars@ == s@,
            i <= j <= chars.len(),
            forall|m: int| j <= m < chars@.len() ==> unicode_white_space(#[trigger] chars@[m]),
        decreases j,
    {
        j = j - 1;
    }
    let ghost t = s@.skip(i as int);
    proof {
        assert forall|m: int| j - i <= m < t.len() implies unicode_white_space(#[trigger] t[m]) by {
            assert(t[m] == s@[m + i]);
        }
        if j > i {
            assert(t[j - i - 1] == s@[j - 1]);
        }
        lemma_trim_end(t, j - i);
    }
    let mut r = String::new();
    let mut k: usize = i;
    while k < j
        invariant
            chars@ == s@,
            i <= k <= j <= chars.len(),
            r@ == s@.subrange(i as int, k as int),
        decreases j - k,
    {
        push_char(&mut r, chars[k]);
        proof {
            assert(r@ =~= s@.subrange(i as int, k + 1));
        }
        k = k + 1;
    }
    proof {
        assert(t.take(j - i) =~= s@.subrange(i as int, j as int));
    }
    r
}

/// Reads the legacy plain-id progress file's contents: the trimmed text is the
/// id of the last completed track, with no date added, name or artist; blank
/// contents give no entry.
pub fn legacy_entry(contents: &str) -> (e: Option<ProgressEntry>)
    ensures
        match e {
            None => trimmed(contents@).len() == 0,
            Some(e) => {
                &&& trimmed(contents@).len() != 0
                &&& e.id@ == trimmed(contents@)
                &&& e.date_added is None
                &&& e.name@.len() == 0
                &&& e.artist@.len() == 0
            },
        },
{
    let id = trim_text(contents);
    if id.as_str().is_empty() {
        None
    } else {
        Some(ProgressEntry { id, date_added: None, name: String::new(), artist: String::new() })
    }
}

/// The label of the saved track shown when a sweep resumes: its name and
/// artist, or its id when the entry has no name.
pub fn resume_label(entry: &ProgressEntry) -> (s: String)
    ensures
        s@ == if entry.name@.len() == 0 {
            entry.id@
        } else {
            entry.name@ + " — "@ + entry.artist@
        },
{
    if entry.name.as_str().is_empty() {
        entry.id.clone()
    } else {
        let mut s = String::new();
        append_str(&mut s, entry.name.as_str());
        append_str(&mut s, " — ");
        append_str(&mut s, entry.artist.as_str());
        s
    }
}

} // verus!

verus! {

proof fn leading_white_space(s: Seq<char>) -> (i: int)
    ensures
        0 <= i <= s.len(),
        forall|k: int| 0 <= k < i ==> unicode_white_space(#[trigger] s[k]),
        i < s.len() ==> !unicode_white_space(s[i]),
    decreases s.len(),
{
    if s.len() == 0 || !unicode_white_space(s[0]) {
        0
    } else {
        let r = leading_white_space(s.drop_first());
        assert forall|k: int| 0 <= k < r + 1 implies unicode_white_space(#[trigger] s[k]) by {
            if k > 0 {
                assert(s[k] == s.drop_first()[k - 1]);
            }
        }
        if r + 1 < s.len() {
            assert(s[r + 1] == s.drop_first()[r]);
        }
        r + 1
    }
}

proof fn trailing_start(t: Seq<char>) -> (j: int)
    ensures
        0 <= j <= t.len(),
        forall|m: int| j <= m < t.len() ==> unicode_white_space(#[trigger] t[m]),
        j > 0 ==> !unicode_white_space(t[j - 1]),
    decreases t.len(),
{
    if t.len() == 0 || !unicode_white_space(t.last()) {
        t.len() as int
    } else {
        let r = trailing_start(t.drop_last());
        assert forall|m: int| r <= m < t.len() implies unicode_white_space(#[trigger] t[m]) by {
            if m < t.len() - 1 {
                assert(t[m] == t.drop_last()[m]);
            }
        }
        if r > 0 {
            assert(t[r - 1] == t.drop_last()[r - 1]);
        }
        r
    }
}

/// Trimming keeps the inner part of the text: a stretch `s[i..j]` with only
/// white space before and after it, starting and ending with a character
/// that is not white space (empty when the text is all white space).
pub proof fn lemma_trimmed_is_inner_part(s: Seq<char>)
    ensures
        exists|i: int, j: int|
            {
                &&& 0 <= i <= j <= s.len()
                &&& trimmed(s) == s.subrange(i, j)
                &&& forall|k: int| 0 <= k < i ==> unicode_white_space(#[trigger] s[k])
                &&& forall|k: int| j <= k < s.len() ==> unicode_white_space(#[trigger] s[k])
                &&& i < j ==> !unicode_white_space(s[i]) && !unicode_white_space(s[j - 1])
            },
{
    let i = leading_white_space(s);
    lemma_trim_start(s, i);
    let t = s.skip(i);
    let e = trailing_start(t);
    lemma_trim_end(t, e);
    let j = i + e;
    assert(trimmed(s) =~= s.subrange(i, j));
    assert forall|k: int| j <= k < s.len() implies unicode_white_space(#[trigger] s[k]) by {
        assert(s[k] == t[k - i]);
    }
    if i < j {
        assert(s[i] == t[0]);
        assert(s[j - 1] == t[e - 1]);
    }
    assert(0 <= i <= j <= s.len());
}

} // verus!
