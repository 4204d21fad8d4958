//! Music.app scripts (JavaScript for Automation, run through `osascript`)
//! and how their inputs and outputs are framed.

use vstd::prelude::*;

use crate::text::{append_str, chars_of, contains_text, decimal, decimal_string, occurs_in, push_char};

verus! {

/// Starts Music.app.
pub const ENSURE_RUNNING_SCRIPT: &'static str = "\n            const app = Application('Music');\n            app.run();\n            JSON.stringify({ ok: true });\n            ";
/// Counts the tracks of the library.
pub const TRACK_COUNT_SCRIPT: &'static str = "\n            const app = Application('Music');\n            app.run();\n            const tracks = app.libraryPlaylists[0].tracks;\n            JSON.stringify({ count: tracks.length });\n            ";
/// Pauses playback.
pub const PAUSE_SCRIPT: &'static str = "\n            const app = Application('Music');\n            try { app.pause(); } catch (e) {}\n            JSON.stringify({ ok: true });\n            ";
/// Script pieces around the id and the statement of a script that finds one track by persistent id and runs a statement on it.
pub const FIND_TRACK_0: &'static str = "\n            const app = Application('Music');\n            app.run();\n            const id = ";
pub const FIND_TRACK_1: &'static str = ";\n            const tracks = app.libraryPlaylists[0].tracks.whose({ persistentID: id });\n            if (tracks.length === 0) {\n                throw new Error('track not found: ' + id);\n            }\n            const track = tracks[0];\n            ";
pub const FIND_TRACK_2: &'static str = "\n            JSON.stringify({ ok: true });\n            ";
/// Script pieces around the offset and the limit of a script that lists one batch of library cursors.
pub const FETCH_BATCH_0: &'static str = "\n            const app = Application('Music');\n            app.run();\n            const tracks = app.libraryPlaylists[0].tracks;\n            const offset = ";
pub const FETCH_BATCH_1: &'static str = ";\n            const limit = ";
pub const FETCH_BATCH_2: &'static str = ";\n            const end = Math.min(offset + limit, tracks.length);\n            const out = [];\n            for (let i = offset; i < end; i++) {\n                const t = tracks[i];\n                let dateAdded = null;\n                try {\n                    const d = t.dateAdded();\n                    if (d) dateAdded = d.toISOString();\n                } catch (e) {}\n                out.push({\n                    id: String(t.persistentID()),\n                    dateAdded: dateAdded\n                });\n            }\n            JSON.stringify(out);\n            ";
/// Script pieces around the id list of a script that removes tracks from the library.
pub const REMOVE_CHUNK_0: &'static str = "\n            const app = Application('Music');\n            app.run();\n            const ids = [";
pub const REMOVE_CHUNK_1: &'static str = "];\n            const gone = [];\n            for (const id of ids) {\n                try {\n                    const tracks = app.libraryPlaylists[0].tracks.whose({ persistentID: id });\n                    if (tracks.length === 0) {\n                        gone.push(id);\n                        continue;\n                    }\n                    tracks[0].delete();\n                    gone.push(id);\n                } catch (e) {}\n            }\n            JSON.stringify({ gone });\n            ";
/// Script pieces around the position expression of a script that moves the player position.
pub const SET_POSITION_0: &'static str = "\n            const app = Application('Music');\n            app.run();\n            let pos = ";
pub const SET_POSITION_1: &'static str = ";\n            if (pos < 0) {\n                pos = 0;\n            }\n            try {\n                const t = app.currentTrack();\n                const dur = Number(t.duration());\n                if (dur > 0 && pos >= dur) {\n                    pos = Math.max(0, dur - 1);\n                }\n            } catch (e) {}\n            app.playerPosition = pos;\n            JSON.stringify({ ok: true, position: pos });\n            ";
/// Script pieces around the id of a script that reads one track's metadata.
pub const GET_TRACK_0: &'static str = "\n            const app = Application('Music');\n            app.run();\n            const id = ";
pub const GET_TRACK_1: &'static str = ";\n            const tracks = app.libraryPlaylists[0].tracks.whose({ persistentID: id });\n            if (tracks.length === 0) {\n                throw new Error('track not found: ' + id);\n            }\n            const t = tracks[0];\n            let dateAdded = null;\n            try {\n                const d = t.dateAdded();\n                if (d) dateAdded = d.toISOString();\n            } catch (e) {}\n            let favorited = false;\n            try { favorited = !!t.favorited(); } catch (e) {}\n            JSON.stringify({\n                id: String(t.persistentID()),\n                name: String(t.name()),\n                artist: String(t.artist()),\n                album: String(t.album()),\n                dateAdded: dateAdded,\n                duration: Number(t.duration()),\n                favorited: favorited\n            });\n            ";

/// The number of library cursors read per indexing script.
pub const INDEX_BATCH_SIZE: usize = 250;

/// The number of tracks removed per removal script.
pub const REMOVE_CHUNK_SIZE: usize = 100;

/// A character escaped inside a single-quoted JavaScript string.
pub open spec fn js_escaped_char(c: char) -> Seq<char> {
    if c == '\\' {
        seq!['\\', '\\']
    } else if c == '\'' {
        seq!['\\', '\'']
    } else if c == '\n' {
        seq!['\\', 'n']
    } else if c == '\r' {
        seq!['\\', 'r']
    } else {
        seq![c]
    }
}

/// A text with backslashes, single quotes and line breaks escaped.
pub open spec fn js_escaped(v: Seq<char>) -> Seq<char>
    decreases v.len(),
{
    if v.len() == 0 {
        Seq::empty()
    } else {
        js_escaped(v.drop_last()) + js_escaped_char(v.last())
    }
}

/// A text as a single-quoted JavaScript string literal.
pub open spec fn js_quoted(v: Seq<char>) -> Seq<char> {
    seq!['\''] + js_escaped(v) + seq!['\'']
}

/// Texts as a comma-separated list of JavaScript string literals.
pub open spec fn js_list(ids: Seq<Seq<char>>) -> Seq<char>
    decreases ids.len(),
{
    if ids.len() == 0 {
        Seq::empty()
    } else if ids.len() == 1 {
        js_quoted(ids[0])
    } else {
        js_list(ids.drop_last()) + ","@ + js_quoted(ids.last())
    }
}

/// The script that finds a track by persistent id and runs `body` on it.
pub open spec fn find_track_text(id: Seq<char>, body: Seq<char>) -> Seq<char> {
    FIND_TRACK_0@ + js_quoted(id) + FIND_TRACK_1@ + body + FIND_TRACK_2@
}

/// The statement that sets a track's favourite flag.
pub open spec fn favorited_statement(favorited: bool) -> Seq<char> {
    if favorited {
        "track.favorited = true;"@
    } else {
        "track.favorited = false;"@
    }
}

/// The statement that sets a track's dislike flag.
pub open spec fn disliked_statement(disliked: bool) -> Seq<char> {
    if disliked {
        "track.disliked = true;"@
    } else {
        "track.disliked = false;"@
    }
}

/// The statements assign the flag the value asked for: `track.favorited =`
/// (or `track.disliked =`) followed by the JavaScript literal of that value,
/// so that the statements for `true` and `false` differ.
pub proof fn lemma_flag_statements_assign_value(b: bool)
    ensures
        favorited_statement(b) == "track.favorited = "@ + (if b {
            "true"@
        } else {
            "false"@
        }) + ";"@,
        disliked_statement(b) == "track.disliked = "@ + (if b {
            "true"@
        } else {
            "false"@
        }) + ";"@,
        favorited_statement(true) != favorited_statement(false),
        disliked_statement(true) != disliked_statement(false),
{
    reveal_strlit("track.favorited = true;");
    reveal_strlit("track.favorited = false;");
    reveal_strlit("track.disliked = true;");
    reveal_strlit("track.disliked = false;");
    reveal_strlit("track.favorited = ");
    reveal_strlit("track.disliked = ");
    reveal_strlit("true");
    reveal_strlit("false");
    reveal_strlit(";");
    assert(favorited_statement(b) =~= "track.favorited = "@ + (if b {
            "true"@
        } else {
            "false"@
        }) + ";"@);
    assert(disliked_statement(b) =~= "track.disliked = "@ + (if b {
            "true"@
        } else {
            "false"@
        }) + ";"@);
    assert(favorited_statement(true).len() != favorited_statement(false).len());
    assert(disliked_statement(true).len() != disliked_statement(false).len());
}

/// The quoted ids are joined by single commas: appending an id to a non-empty
/// list adds one comma and the quoted id, and a single id is just quoted.
pub proof fn lemma_js_list_push(s: Seq<Seq<char>>, x: Seq<char>)
    ensures
        s.len() == 0 ==> js_list(s.push(x)) == js_quoted(x),
        s.len() > 0 ==> js_list(s.push(x)) == js_list(s) + ","@ + js_quoted(x),
{
    assert(s.push(x).drop_last() =~= s);
    assert(s.push(x).last() == x);
    if s.len() == 0 {
        assert(s.push(x)[0] == x);
    }
}

/// Joining two non-empty id lists puts exactly one comma between them.
pub proof fn lemma_js_list_concat(a: Seq<Seq<char>>, b: Seq<Seq<char>>)
    requires
        a.len() > 0,
        b.len() > 0,
    ensures
        js_list(a + b) == js_list(a) + ","@ + js_list(b),
    decreases b.len(),
{
    if b.len() == 1 {
        assert(a + b =~= a.push(b[0]));
        lemma_js_list_push(a, b[0]);
        lemma_js_list_push(Seq::empty(), b[0]);
        assert(Seq::<Seq<char>>::empty().push(b[0]) =~= b);
    } else {
        let c = b.drop_last();
        lemma_js_list_concat(a, c);
        assert(a + b =~= (a + c).push(b.last()));
        assert(c.push(b.last()) =~= b);
        lemma_js_list_push(a + c, b.last());
        lemma_js_list_push(c, b.last());
    }
}

/// Apple Music / Music.app backend via `osascript` + JXA.
pub struct AppleMusicProvider;

impl AppleMusicProvider {
    pub fn new() -> (p: Self)
        ensures
            p == AppleMusicProvider,
    {
        AppleMusicProvider
    }

    /// A text as a single-quoted JavaScript string literal, with backslashes,
    /// single quotes and line breaks escaped.
    pub fn js_string(value: &str) -> (s: String)
        ensures
            s@ == js_quoted(value@),
    {
        let chars = chars_of(value);
        let mut s = String::new();
        push_char(&mut s, '\'');
        let mut i: usize = 0;
        while i < chars.len()
            invariant
                chars@ == value@,
                i <= chars.len(),
                s@ == seq!['\''] + js_escaped(chars@.take(i as int)),
            decreases chars.len() - i,
        {
            let c = chars[i];
            proof {
                assert(chars@.take(i + 1).drop_last() =~= chars@.take(i as int));
                assert(chars@.take(i + 1).last() == c);
            }
            if c == '\\' {
                push_char(&mut s, '\\');
                push_char(&mut s, '\\');
            } else if c == '\'' {
                push_char(&mut s, '\\');
                push_char(&mut s, '\'');
            } else if c == '\n' {
                push_char(&mut s, '\\');
                push_char(&mut s, 'n');
            } else if c == '\r' {
                push_char(&mut s, '\\');
                push_char(&mut s, 'r');
            } else {
                push_char(&mut s, c);
            }
            proof {
                assert(s@ =~= seq!['\''] + js_escaped(chars@.take(i + 1)));
            }
            i = i + 1;
        }
        push_char(&mut s, '\'');
        proof {
            assert(chars@.take(chars@.len() as int) =~= chars@);
        }
        s
    }

    /// The script that finds a track by persistent id (failing when there
    /// is none) and runs `body` on it.
    pub fn find_track_script(id: &str, body: &str) -> (s: String)
        ensures
            s@ == find_track_text(id@, body@),
    {
        let id_js = Self::js_string(id);
        let mut s = String::new();
        append_str(&mut s, FIND_TRACK_0);
        append_str(&mut s, id_js.as_str());
        append_str(&mut s, FIND_TRACK_1);
        append_str(&mut s, body);
        append_str(&mut s, FIND_TRACK_2);
        proof {
            assert(s@ =~= find_track_text(id@, body@));
        }
        s
    }

    /// The script that lists the cursors of library tracks
    /// `offset .. offset + limit`.
    pub fn fetch_cursor_batch_script(offset: usize, limit: usize) -> (s: String)
        ensures
            s@ == FETCH_BATCH_0@ + decimal(offset as nat) + FETCH_BATCH_1@ + decimal(limit as nat)
                + FETCH_BATCH_2@,
    {
        let o = decimal_string(offset as u64);
        let l = decimal_string(limit as u64);
        let mut s = String::new();
        append_str(&mut s, FETCH_BATCH_0);
        append_str(&mut s, o.as_str());
        append_str(&mut s, FETCH_BATCH_1);
        append_str(&mut s, l.as_str());
        append_str(&mut s, FETCH_BATCH_2);
        proof {
            assert(s@ =~= FETCH_BATCH_0@ + decimal(offset as nat) + FETCH_BATCH_1@ + decimal(
                limit as nat,
            ) + FETCH_BATCH_2@);
        }
        s
    }

    /// The script that reads one track's metadata by persistent id.
    pub fn get_track_script(id: &str) -> (s: String)
        ensures
            s@ == GET_TRACK_0@ + js_quoted(id@) + GET_TRACK_1@,
    {
        let id_js = Self::js_string(id);
        let mut s = String::new();
        append_str(&mut s, GET_TRACK_0);
        append_str(&mut s, id_js.as_str());
        append_str(&mut s, GET_TRACK_1);
        proof {
            assert(s@ =~= GET_TRACK_0@ + js_quoted(id@) + GET_TRACK_1@);
        }
        s
    }

    /// The script that plays a track.
    pub fn play_track_script(id: &str) -> (s: String)
        ensures
            s@ == find_track_text(id@, "track.play();"@),
    {
        Self::find_track_script(id, "track.play();")
    }

    /// The script that sets a track's favourite flag.
    pub fn set_favorited_script(id: &str, favorited: bool) -> (s: String)
        ensures
            s@ == find_track_text(id@, favorited_statement(favorited)),
    {
        if favorited {
            Self::find_track_script(id, "track.favorited = true;")
        } else {
            Self::find_track_script(id, "track.favorited = false;")
        }
    }

    /// The script that sets a track's dislike flag.
    pub fn set_disliked_script(id: &str, disliked: bool) -> (s: String)
        ensures
            s@ == find_track_text(id@, disliked_statement(disliked)),
    {
        if disliked {
            Self::find_track_script(id, "track.disliked = true;")
        } else {
            Self::find_track_script(id, "track.disliked = false;")
        }
    }

    /// The script that removes the tracks with the given ids from the
    /// library and reports the ids that are gone.
    pub fn remove_chunk_script(ids: &[String]) -> (s: String)
        ensures
            s@ == REMOVE_CHUNK_0@ + js_list(ids@.map_values(|id: String| id@)) + REMOVE_CHUNK_1@,
    {
        let ghost texts = ids@.map_values(|id: String| id@);
        let mut list = String::new();
        let mut i: usize = 0;
        while i < ids.len()
            invariant
                i <= ids@.len(),
                texts == ids@.map_values(|id: String| id@),
                list@ == js_list(texts.take(i as int)),
            decreases ids.len() - i,
        {
            let quoted = Self::js_string(ids[i].as_str());
            proof {
                assert(texts.take(i + 1).drop_last() =~= texts.take(i as int));
                assert(texts.take(i + 1).last() == ids@[i as int]@);
                if i == 0 {
                    assert(texts.take(0) =~= Seq::<Seq<char>>::empty());
                }
            }
            if i > 0 {
                append_str(&mut list, ",");
            }
            append_str(&mut list, quoted.as_str());
            proof {
                assert(list@ =~= js_list(texts.take(i + 1)));
            }
            i = i + 1;
        }
        proof {
            assert(texts.take(i as int) =~= texts);
        }
        let mut s = String::new();
        append_str(&mut s, REMOVE_CHUNK_0);
        append_str(&mut s, list.as_str());
        append_str(&mut s, REMOVE_CHUNK_1);
        proof {
            assert(s@ =~= REMOVE_CHUNK_0@ + js_list(texts) + REMOVE_CHUNK_1@);
        }
        s
    }

    /// The script that moves the player to `seconds` (or `seconds` further
    /// on when `relative`), kept inside the current track.
    pub fn set_player_position_script(seconds: u32, relative: bool) -> (s: String)
        ensures
            s@ == SET_POSITION_0@ + (if relative {
                "Number(app.playerPosition()) + "@
            } else {
                Seq::empty()
            }) + decimal(seconds as nat) + SET_POSITION_1@,
    {
        let n = decimal_string(seconds as u64);
        let mut s = String::new();
        append_str(&mut s, SET_POSITION_0);
        if relative {
            append_str(&mut s, "Number(app.playerPosition()) + ");
        }
        append_str(&mut s, n.as_str());
        append_str(&mut s, SET_POSITION_1);
        proof {
            assert(s@ =~= SET_POSITION_0@ + (if relative {
                "Number(app.playerPosition()) + "@
            } else {
                Seq::empty()
            }) + decimal(seconds as nat) + SET_POSITION_1@);
        }
        s
    }
}

impl Default for AppleMusicProvider {
    fn default() -> (p: Self)
        ensures
            p == AppleMusicProvider,
    {
        AppleMusicProvider::new()
    }
}

/// Where indexing goes on after a batch of `fetched` cursors was read at
/// `offset`: past the batch, or nowhere once a batch comes back empty (the
/// library shrank while it was read). Indexing also stops once the offset
/// reaches the track count.
pub fn next_index_offset(offset: usize, fetched: usize) -> (next: Option<usize>)
    requires
        offset + fetched <= usize::MAX,
    ensures
        fetched == 0 ==> next is None,
        fetched > 0 ==> next == Some((offset + fetched) as usize),
{
    if fetched == 0 {
        None
    } else {
        Some(offset + fetched)
    }
}

/// What `osascript` printed on failure says that Music.app may not be
/// controlled (Automation permission denied).
pub open spec fn permission_denied(stderr: Seq<char>) -> bool {
    occurs_in(stderr, "not allowed assistive"@) || occurs_in(stderr, "not authorized"@)
        || occurs_in(stderr, "(-1743)"@)
}

/// Whether a failed script's error output says that the Automation
/// permission is missing.
pub fn is_permission_denied(stderr: &str) -> (b: bool)
    ensures
        b == permission_denied(stderr@),
{
    contains_text(stderr, "not allowed assistive") || contains_text(stderr, "not authorized")
        || contains_text(stderr, "(-1743)")
}

/// Splits the ids to remove into the chunks that one removal script takes:
/// consecutive runs of `REMOVE_CHUNK_SIZE` ids, the last one possibly shorter.
pub fn remove_chunks(ids: &[String]) -> (chunks: Vec<Vec<String>>)
    ensures
        chunks@.len() == (ids@.len() + 99) / 100,
        forall|c: int|
            0 <= c < chunks@.len() ==> #[trigger] chunks@[c]@ == ids@.subrange(
                100 * c,
                if 100 * c + 100 <= ids@.len() {
                    100 * c + 100
                } else {
                    ids@.len() as int
                },
            ),
{
    let mut chunks: Vec<Vec<String>> = Vec::new();
    let mut start: usize = 0;
    while start < ids.len()
        invariant
            start <= ids@.len(),
            chunks@.len() == (start + 99) / 100,
            start < ids@.len() ==> start == 100 * chunks@.len(),
            forall|c: int|
                0 <= c < chunks@.len() ==> #[trigger] chunks@[c]@ == ids@.subrange(
                    100 * c,
                    if 100 * c + 100 <= ids@.len() {
                        100 * c + 100
                    } else {
                        ids@.len() as int
                    },
                ),
        decreases ids.len() - start,
    {
        let end = if ids.len() - start > REMOVE_CHUNK_SIZE {
            start + REMOVE_CHUNK_SIZE
        } else {
            ids.len()
        };
        let mut chunk: Vec<String> = Vec::new();
        let mut k: usize = start;
        while k < end
            invariant
                start <= k <= end <= ids@.len(),
                chunk@ == ids@.subrange(start as int, k as int),
            decreases end - k,
        {
            chunk.push(ids[k].clone());
            proof {
                assert(chunk@ =~= ids@.subrange(start as int, k + 1));
            }
            k = k + 1;
        }
        let ghost before = chunks@;
        chunks.push(chunk);
        proof {
            assert forall|c: int| 0 <= c < chunks@.len() implies #[trigger] chunks@[c]@
                == ids@.subrange(
                100 * c,
                if 100 * c + 100 <= ids@.len() {
                    100 * c + 100
                } else {
                    ids@.len() as int
                },
            ) by {
                if c < before.len() {
                    assert(chunks@[c] == before[c]);
                }
            }
        }
        start = end;
    }
    chunks
}

} // verus!

verus! {

/// The text can stand between single quotes in JavaScript: every backslash
/// starts a two-character escape, and no quote or line break stands bare.
pub open spec fn js_body_ok(t: Seq<char>) -> bool
    decreases t.len(),
{
    if t.len() == 0 {
        true
    } else if t[0] == '\\' {
        t.len() >= 2 && js_body_ok(t.skip(2))
    } else if t[0] == '\'' || t[0] == '\n' || t[0] == '\r' {
        false
    } else {
        js_body_ok(t.skip(1))
    }
}

/// The character that a JavaScript escape `\c` stands for (for the escapes
/// `\n`, `\r` and the escaped characters that stand for themselves).
pub open spec fn js_escape_meaning(c: char) -> char {
    if c == 'n' {
        '\n'
    } else if c == 'r' {
        '\r'
    } else {
        c
    }
}

/// The characters that the body of a JavaScript string literal stands for.
pub open spec fn js_decoded(t: Seq<char>) -> Seq<char>
    decreases t.len(),
{
    if t.len() == 0 {
        Seq::empty()
    } else if t[0] == '\\' && t.len() >= 2 {
        seq![js_escape_meaning(t[1])] + js_decoded(t.skip(2))
    } else {
        seq![t[0]] + js_decoded(t.skip(1))
    }
}

proof fn lemma_js_decoded_concat(p: Seq<char>, q: Seq<char>)
    requires
        js_body_ok(p),
    ensures
        js_body_ok(p + q) == js_body_ok(q),
        js_decoded(p + q) == js_decoded(p) + js_decoded(q),
    decreases p.len(),
{
    if p.len() == 0 {
        assert(p + q =~= q);
        assert(js_decoded(p) =~= Seq::<char>::empty());
        assert(js_decoded(p) + js_decoded(q) =~= js_decoded(q));
    } else if p[0] == '\\' {
        assert((p + q).skip(2) =~= p.skip(2) + q);
        assert((p + q)[0] == p[0] && (p + q)[1] == p[1]);
        lemma_js_decoded_concat(p.skip(2), q);
        assert(js_decoded(p + q) =~= js_decoded(p) + js_decoded(q));
    } else {
        assert((p + q).skip(1) =~= p.skip(1) + q);
        assert((p + q)[0] == p[0]);
        lemma_js_decoded_concat(p.skip(1), q);
        assert(js_decoded(p + q) =~= js_decoded(p) + js_decoded(q));
    }
}

proof fn lemma_js_escaped_char_decodes(c: char)
    ensures
        js_body_ok(js_escaped_char(c)),
        js_decoded(js_escaped_char(c)) == seq![c],
{
    let e = js_escaped_char(c);
    if e.len() == 2 {
        assert(e.skip(2) =~= Seq::<char>::empty());
        assert(js_body_ok(e.skip(2)));
        assert(e[0] == '\\');
        assert(js_decoded(e) =~= seq![js_escape_meaning(e[1])] + js_decoded(e.skip(2)));
    } else {
        assert(e.skip(1) =~= Seq::<char>::empty());
        assert(js_body_ok(e.skip(1)));
        assert(e[0] == c && c != '\\' && c != '\'' && c != '\n' && c != '\r');
        assert(js_decoded(e) =~= seq![e[0]] + js_decoded(e.skip(1)));
    }
    assert(js_decoded(e) =~= seq![c]);
}

/// Escaping gives a text that can stand between single quotes in
/// JavaScript, and that JavaScript reads back as the original text: the id
/// in a script is exactly the track's id.
pub proof fn lemma_js_escaped_reads_back(v: Seq<char>)
    ensures
        js_body_ok(js_escaped(v)),
        js_decoded(js_escaped(v)) == v,
    decreases v.len(),
{
    if v.len() == 0 {
        assert(js_decoded(js_escaped(v)) =~= v);
    } else {
        lemma_js_escaped_reads_back(v.drop_last());
        lemma_js_escaped_char_decodes(v.last());
        lemma_js_decoded_concat(js_escaped(v.drop_last()), js_escaped_char(v.last()));
        assert(v.drop_last() + seq![v.last()] =~= v);
    }
}

} // verus!
