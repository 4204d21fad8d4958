//! The sweep through the library: what each answer does to the position,
//! the saved progress, the pending-delete list and the decisions log, and
//! the lines the sweep prints. The loop that plays tracks, reads keys and
//! writes files drives it.

use vstd::prelude::*;

use crate::decisions::Decision;
use crate::disliked::{disliked_entry, id_is_not, DislikedSet, DislikedTrack};
use crate::input::{Action, ActionFilter};
use crate::progress::{progress_of, ProgressEntry};
use crate::provider::{
    ids_distinct,
    lemma_resume_continues_after,
    models,
    opt_text,
    resume_index,
    CursorModel,
    ResumeCursor,
    TrackInfo,
};
use crate::style::{paint, paint_bold, painted, painted_bold, Hue};
use crate::text::{append_str, decimal, decimal_string};

verus! {

/// How far into a long track playback jumps when it starts.
pub const SEEK_SECONDS: u32 = 30;

/// Tracks longer than this (in milliseconds) start at `SEEK_SECONDS`.
pub const SEEK_MIN_DURATION_MS: u64 = 60000;

/// Playback of a track starts `SEEK_SECONDS` in when the track is longer
/// than a minute.
pub fn should_seek_on_play(track: &TrackInfo) -> (b: bool)
    ensures
        b == (track.duration_ms > 60000),
{
    track.duration_ms > SEEK_MIN_DURATION_MS
}

/// What to do with an answer while the track plays.
#[derive(Debug, Clone, Copy, PartialEq, Eq, Structural)]
pub enum WaitStep {
    /// Seeking by zero seconds: nothing to do; keep waiting.
    Ignore,
    /// Seek forward by this many seconds, then keep waiting.
    SeekBy(u32),
    /// The answer decides the track.
    Proceed,
}

/// Seeking does not decide the track: `+0s` is ignored, other seeks move
/// playback and the sweep keeps waiting; every other answer decides.
pub fn wait_step(action: Action) -> (w: WaitStep)
    ensures
        w == match action {
            Action::SeekForward(s) => if s == 0 {
                WaitStep::Ignore
            } else {
                WaitStep::SeekBy(s)
            },
            _ => WaitStep::Proceed,
        },
{
    match action {
        Action::SeekForward(s) => if s == 0 {
            WaitStep::Ignore
        } else {
            WaitStep::SeekBy(s)
        },
        _ => WaitStep::Proceed,
    }
}

/// A change to Music.app's flags for the current track.
#[derive(Debug, Clone, Copy, PartialEq, Eq, Structural)]
pub enum PlayerCall {
    SetDisliked(bool),
    SetFavorited(bool),
}

/// A change to the saved progress.
pub enum ProgressUpdate {
    /// Leave the saved progress as it is.
    Unchanged,
    /// Delete the saved progress: the next run starts from the oldest track.
    Clear,
    /// Save this entry as the last completed track.
    Save(ProgressEntry),
}

/// What an answer about the current track comes to.
pub enum Outcome {
    /// Go back one track; apply the progress update so that a quit resumes
    /// on the track returned to.
    Back { update: ProgressUpdate },
    /// The track is decided: make the player call if any, save the
    /// pending-delete list when it changed, log the decision and save the
    /// progress entry.
    Decided {
        call: Option<PlayerCall>,
        decision: Decision,
        disliked_changed: bool,
        progress: ProgressEntry,
    },
    /// Stop the sweep.
    Quit,
}

/// The cursor of a saved entry, as texts.
pub open spec fn entry_cursor(e: ProgressEntry) -> CursorModel {
    CursorModel { id: e.id@, date_added: opt_text(e.date_added) }
}

/// The entry saved for a library cursor when nothing else is known of the
/// track: its id and date added, with no name or artist.
pub open spec fn is_cursor_entry(e: ProgressEntry, c: ResumeCursor) -> bool {
    &&& e.id == c.id
    &&& e.date_added == c.date_added
    &&& e.name@.len() == 0
    &&& e.artist@.len() == 0
}

/// The entry saved for a library cursor, with no name or artist.
fn cursor_entry(c: &ResumeCursor) -> (e: ProgressEntry)
    ensures
        is_cursor_entry(e, *c),
{
    let d = c.duplicate();
    ProgressEntry { id: d.id, date_added: d.date_added, name: String::new(), artist: String::new() }
}

/// The progress update that makes a later run resume at `current_pos`:
/// no saved progress at the start of the order, else the track before it.
pub fn rewind_progress(order: &[ResumeCursor], current_pos: usize) -> (u: ProgressUpdate)
    requires
        current_pos <= order@.len(),
    ensures
        current_pos == 0 ==> u is Clear,
        current_pos > 0 ==> (u matches ProgressUpdate::Save(e) && is_cursor_entry(
            e,
            order@[current_pos - 1],
        )),
{
    if current_pos == 0 {
        ProgressUpdate::Clear
    } else {
        ProgressUpdate::Save(cursor_entry(&order[current_pos - 1]))
    }
}

/// The decision that an answer logs: dislike, favourite, unfavourite, or
/// keep for every other answer that decides the track.
pub open spec fn decision_of(action: Action) -> Decision {
    match action {
        Action::Dislike => Decision::Dislike,
        Action::Favourite => Decision::Favourite,
        Action::Unfavourite => Decision::Unfavourite,
        _ => Decision::Keep,
    }
}

/// A sweep through the library order, standing at one track.
pub struct Sweep {
    order: Vec<ResumeCursor>,
    pos: usize,
}

impl Sweep {
    #[verifier::type_invariant]
    spec fn position_in_order(self) -> bool {
        self.pos <= self.order@.len()
    }

    /// The library order swept.
    pub closed spec fn order(self) -> Seq<ResumeCursor> {
        self.order@
    }

    /// The position of the current track (the length of the order once done).
    pub closed spec fn pos(self) -> nat {
        self.pos as nat
    }

    /// A sweep of `order` that starts at position `start`.
    pub fn new(order: Vec<ResumeCursor>, start: usize) -> (s: Self)
        requires
            start <= order@.len(),
        ensures
            s.order() == order@,
            s.pos() == start,
    {
        Sweep { order, pos: start }
    }

    /// The number of tracks in the order.
    pub fn total(&self) -> (n: usize)
        ensures
            n == self.order().len(),
    {
        self.order.len()
    }

    /// The position of the current track.
    pub fn position(&self) -> (p: usize)
        ensures
            p == self.pos(),
            p <= self.order().len(),
    {
        proof {
            use_type_invariant(self);
        }
        self.pos
    }

    /// The sweep has passed the last track.
    pub fn is_finished(&self) -> (b: bool)
        ensures
            b == (self.pos() >= self.order().len()),
    {
        self.pos >= self.order.len()
    }

    /// The cursor of the current track, unless the sweep is finished.
    pub fn current(&self) -> (c: Option<&ResumeCursor>)
        ensures
            self.pos() < self.order().len() ==> c == Some(&self.order()[self.pos() as int]),
            self.pos() >= self.order().len() ==> c is None,
    {
        if self.pos < self.order.len() {
            Some(&self.order[self.pos])
        } else {
            None
        }
    }

    /// The keys offered for the current track: favourite or unfavourite
    /// depending on its flag, back anywhere but at the first position.
    pub fn filter_for(&self, track: &TrackInfo) -> (f: ActionFilter)
        ensures
            f.allow_favourite == !track.favorited,
            f.allow_unfavourite == track.favorited,
            f.allow_back == (self.pos() > 0),
    {
        ActionFilter::for_track(track.favorited, self.pos > 0)
    }

    /// The current track is missing from the library: it counts as completed.
    /// Returns the entry to save (its cursor, with no name or artist) and moves
    /// on. With distinct ids, a later run resumes where the sweep now stands.
    pub fn skip_missing(&mut self) -> (e: ProgressEntry)
        requires
            old(self).pos() < old(self).order().len(),
        ensures
            final(self).order() == old(self).order(),
            final(self).pos() == old(self).pos() + 1,
            is_cursor_entry(e, old(self).order()[old(self).pos() as int]),
            ids_distinct(models(old(self).order())) ==> resume_index(
                models(final(self).order()),
                Some(entry_cursor(e)),
            ) == final(self).pos(),
    {
        let e = cursor_entry(&self.order[self.pos]);
        proof {
            let m = models(self.order@);
            assert(m[self.pos as int] == self.order@[self.pos as int]@);
            if ids_distinct(m) {
                lemma_resume_continues_after(m, self.pos as int, entry_cursor(e));
            }
        }
        let n = self.order.len();
        assert(self.pos < n);
        self.pos = self.pos + 1;
        e
    }

    /// Applies the answer about the current track.
    ///
    /// - Back: at the first track nothing changes; elsewhere the sweep steps
    ///   back and the progress is rewound to the track before it.
    /// - Dislike: mark the track disliked and add it to the pending-delete list.
    /// - Favourite / unfavourite: set the favourite flag; the track leaves the
    ///   pending-delete list.
    /// - Keep: clear the dislike flag unless the track is a favourite; the
    ///   track leaves the pending-delete list.
    /// - Quit: nothing changes.
    ///
    /// A decided track is logged and saved as progress, and the sweep moves
    /// on; with distinct ids, a later run resumes where the sweep then stands.
    pub fn apply(&mut self, track: &TrackInfo, action: Action, disliked: &mut DislikedSet) -> (o:
        Outcome)
        requires
            old(self).pos() < old(self).order().len(),
            !(action is SeekForward),
        ensures
            final(self).order() == old(self).order(),
            final(disliked).file() == old(disliked).file(),
            match o {
                Outcome::Quit => {
                    &&& action == Action::Quit
                    &&& final(self).pos() == old(self).pos()
                    &&& final(disliked)@ == old(disliked)@
                },
                Outcome::Back { update } => {
                    &&& action == Action::Back
                    &&& final(disliked)@ == old(disliked)@
                    &&& old(self).pos() == 0 ==> final(self).pos() == 0 && update is Unchanged
                    &&& old(self).pos() > 0 ==> final(self).pos() == old(self).pos() - 1
                    &&& old(self).pos() == 1 ==> update is Clear
                    &&& old(self).pos() > 1 ==> (update matches ProgressUpdate::Save(e)
                        && is_cursor_entry(e, old(self).order()[old(self).pos() - 2]))
                    &&& update matches ProgressUpdate::Save(e) ==> (ids_distinct(
                        models(old(self).order()),
                    ) ==> resume_index(models(final(self).order()), Some(entry_cursor(e)))
                        == final(self).pos())
                },
                Outcome::Decided { call, decision, disliked_changed, progress } => {
                    &&& decision == decision_of(action)
                    &&& final(self).pos() == old(self).pos() + 1
                    &&& progress == progress_of(*track)
                    &&& (ids_distinct(models(old(self).order())) && track.id@ == old(
                        self,
                    ).order()[old(self).pos() as int].id@) ==> resume_index(
                        models(final(self).order()),
                        Some(entry_cursor(progress)),
                    ) == final(self).pos()
                    &&& match action {
                        Action::Dislike => {
                            &&& call == Some(PlayerCall::SetDisliked(true))
                            &&& decision == Decision::Dislike
                            &&& disliked_changed
                            &&& final(disliked)@ == old(disliked)@.filter(
                                id_is_not(track.id@),
                            ).push(disliked_entry(*track))
                        },
                        Action::Favourite => {
                            &&& call == Some(PlayerCall::SetFavorited(true))
                            &&& decision == Decision::Favourite
                            &&& final(disliked)@ == old(disliked)@.filter(id_is_not(track.id@))
                            &&& disliked_changed == (final(disliked)@.len() != old(
                                disliked,
                            )@.len())
                        },
                        Action::Unfavourite => {
                            &&& call == Some(PlayerCall::SetFavorited(false))
                            &&& decision == Decision::Unfavourite
                            &&& final(disliked)@ == old(disliked)@.filter(id_is_not(track.id@))
                            &&& disliked_changed == (final(disliked)@.len() != old(
                                disliked,
                            )@.len())
                        },
                        Action::Skip => {
                            &&& call == (if track.favorited {
                                None
                            } else {
                                Some(PlayerCall::SetDisliked(false))
                            })
                            &&& decision == Decision::Keep
                            &&& final(disliked)@ == old(disliked)@.filter(id_is_not(track.id@))
                            &&& disliked_changed == (final(disliked)@.len() != old(
                                disliked,
                            )@.len())
                        },
                        _ => false,
                    }
                },
            },
    {
        proof {
            use_type_invariant(&*self);
        }
        match action {
            Action::Quit => Outcome::Quit,
            Action::Back => {
                if self.pos == 0 {
                    Outcome::Back { update: ProgressUpdate::Unchanged }
                } else {
                    let p = self.pos - 1;
                    let update = rewind_progress(self.order.as_slice(), p);
                    proof {
                        if p > 0 {
                            let m = models(self.order@);
                            assert(m[p - 1] == self.order@[p - 1]@);
                            if let ProgressUpdate::Save(e) = &update {
                                if ids_distinct(m) {
                                    lemma_resume_continues_after(m, p - 1, entry_cursor(*e));
                                }
                            }
                        }
                    }
                    self.pos = p;
                    Outcome::Back { update }
                }
            },
            _ => {
                let (call, decision, disliked_changed) = match action {
                    Action::Dislike => {
                        disliked.add(track);
                        (Some(PlayerCall::SetDisliked(true)), Decision::Dislike, true)
                    },
                    Action::Favourite => {
                        let changed = disliked.remove_id(track.id.as_str());
                        (Some(PlayerCall::SetFavorited(true)), Decision::Favourite, changed)
                    },
                    Action::Unfavourite => {
                        let changed = disliked.remove_id(track.id.as_str());
                        (Some(PlayerCall::SetFavorited(false)), Decision::Unfavourite, changed)
                    },
                    _ => {
                        let changed = disliked.remove_id(track.id.as_str());
                        let call = if track.favorited {
                            None
                        } else {
                            Some(PlayerCall::SetDisliked(false))
                        };
                        (call, Decision::Keep, changed)
                    },
                };
                let progress = ProgressEntry::from_track(track);
                proof {
                    let m = models(self.order@);
                    assert(m[self.pos as int] == self.order@[self.pos as int]@);
                    if ids_distinct(m) && track.id@ == self.order@[self.pos as int].id@ {
                        lemma_resume_continues_after(m, self.pos as int, entry_cursor(progress));
                    }
                }
                let n = self.order.len();
                assert(self.pos < n);
                self.pos = self.pos + 1;
                Outcome::Decided { call, decision, disliked_changed, progress }
            },
        }
    }
}

} // verus!

verus! {

/// The line shown for a track about to play, from its coloured title and
/// favourite star: position, title, artist, album, the star for a
/// favourite, then the key help and the answer prompt.
pub open spec fn track_line_text(
    index: nat,
    total: nat,
    track: TrackInfo,
    key_help: Seq<char>,
    title: Seq<char>,
    star: Seq<char>,
) -> Seq<char> {
    "\r\n["@ + decimal(index) + "/"@ + decimal(total) + "] "@ + title + " — "@ + track.artist@
        + " ("@ + track.album@ + ")"@ + (if track.favorited {
        " "@ + star
    } else {
        Seq::empty()
    }) + "\r\n  "@ + key_help + "\r\n> "@
}

/// The line shown for a track about to play: `[index/total]`, the title in
/// bold blue, artist and album, a yellow star for a favourite, and the key help.
pub fn track_line(index: usize, total: usize, track: &TrackInfo, key_help: &str) -> (s: String)
    ensures
        exists|title: Seq<char>, star: Seq<char>|
            {
                &&& painted_bold(track.name@, Hue::Blue, title)
                &&& painted("★"@, Hue::Yellow, star)
                &&& s@ == track_line_text(
                    index as nat,
                    total as nat,
                    *track,
                    key_help@,
                    title,
                    star,
                )
            },
{
    let title = paint_bold(track.name.as_str(), Hue::Blue);
    let star = paint("★", Hue::Yellow);
    let i = decimal_string(index as u64);
    let t = decimal_string(total as u64);
    let mut s = String::new();
    append_str(&mut s, "\r\n[");
    append_str(&mut s, i.as_str());
    append_str(&mut s, "/");
    append_str(&mut s, t.as_str());
    append_str(&mut s, "] ");
    append_str(&mut s, title.as_str());
    append_str(&mut s, " — ");
    append_str(&mut s, track.artist.as_str());
    append_str(&mut s, " (");
    append_str(&mut s, track.album.as_str());
    append_str(&mut s, ")");
    if track.favorited {
        append_str(&mut s, " ");
        append_str(&mut s, star.as_str());
    }
    append_str(&mut s, "\r\n  ");
    append_str(&mut s, key_help);
    append_str(&mut s, "\r\n> ");
    proof {
        assert(s@ =~= track_line_text(
            index as nat,
            total as nat,
            *track,
            key_help@,
            title@,
            star@,
        ));
    }
    s
}

/// The label and colour an answer is echoed with.
pub open spec fn echo_label(action: Action) -> (Seq<char>, Hue) {
    match action {
        Action::Dislike => ("dislike"@, Hue::Red),
        Action::Favourite => ("favourite"@, Hue::Yellow),
        Action::Unfavourite => ("unfavourite"@, Hue::Magenta),
        Action::Skip => ("keep"@, Hue::Green),
        Action::Back => ("back"@, Hue::Blue),
        Action::SeekForward(s) => ("+"@ + decimal(s as nat) + "s"@, Hue::Cyan),
        Action::Quit => ("quit"@, Hue::DarkGrey),
    }
}

/// The line echoing an answer: an arrow and the answer's label in its colour
/// (a seek shows the seconds it adds).
pub fn action_echo(action: Action) -> (s: String)
    ensures
        exists|label: Seq<char>|
            painted(echo_label(action).0, echo_label(action).1, label) && s@ == "  → "@ + label,
{
    let label = match action {
        Action::Dislike => paint("dislike", Hue::Red),
        Action::Favourite => paint("favourite", Hue::Yellow),
        Action::Unfavourite => paint("unfavourite", Hue::Magenta),
        Action::Skip => paint("keep", Hue::Green),
        Action::Back => paint("back", Hue::Blue),
        Action::SeekForward(sec) => {
            let n = decimal_string(sec as u64);
            let mut t = String::new();
            append_str(&mut t, "+");
            append_str(&mut t, n.as_str());
            append_str(&mut t, "s");
            proof {
                assert(t@ =~= "+"@ + decimal(sec as nat) + "s"@);
            }
            paint(t.as_str(), Hue::Cyan)
        },
        Action::Quit => paint("quit", Hue::DarkGrey),
    };
    let mut s = String::new();
    append_str(&mut s, "  → ");
    append_str(&mut s, label.as_str());
    proof {
        assert(s@ =~= "  → "@ + label@);
    }
    s
}

/// The word for a number of tracks.
pub open spec fn track_noun(n: nat) -> Seq<char> {
    if n == 1 {
        "track"@
    } else {
        "tracks"@
    }
}

/// The number of pending tracks listed by name before a deletion.
pub const LISTED_BEFORE_DELETE: usize = 10;

/// The line listing one pending track.
pub open spec fn pending_line(t: DislikedTrack) -> Seq<char> {
    "  "@ + t.name@ + " — "@ + t.artist@
}

/// The lines that ask whether to delete the pending tracks: the question
/// with their number, the first ten by name and artist, and how many more
/// there are when there are more than ten.
pub fn delete_prompt_lines(pending: &DislikedSet) -> (lines: Vec<String>)
    ensures
        ({
            let n = pending@.len();
            let listed = if n > 10 {
                10
            } else {
                n
            };
            &&& lines@.len() == 1 + listed + (if n > 10 {
                1int
            } else {
                0int
            })
            &&& lines@[0]@ == "\nDelete "@ + decimal(n) + " disliked "@ + track_noun(n)
                + " from the library? [y/n]"@
            &&& forall|i: int|
                0 <= i < listed ==> #[trigger] lines@[1 + i]@ == pending_line(pending@[i])
            &&& n > 10 ==> lines@[11]@ == "  … and "@ + decimal((n - 10) as nat) + " more"@
        }),
{
    let tracks = pending.tracks();
    let n = tracks.len();
    let mut lines: Vec<String> = Vec::new();
    let count = decimal_string(n as u64);
    let mut head = String::new();
    append_str(&mut head, "\nDelete ");
    append_str(&mut head, count.as_str());
    append_str(&mut head, " disliked ");
    if n == 1 {
        append_str(&mut head, "track");
    } else {
        append_str(&mut head, "tracks");
    }
    append_str(&mut head, " from the library? [y/n]");
    proof {
        assert(head@ =~= "\nDelete "@ + decimal(n as nat) + " disliked "@ + track_noun(n as nat)
            + " from the library? [y/n]"@);
    }
    lines.push(head);
    let listed = if n > LISTED_BEFORE_DELETE {
        LISTED_BEFORE_DELETE
    } else {
        n
    };
    let mut i: usize = 0;
    while i < listed
        invariant
            tracks@ == pending@,
            n == tracks@.len(),
            listed <= n,
            listed == (if n > 10 {
                10
            } else {
                n
            }),
            i <= listed,
            lines@.len() == 1 + i,
            lines@[0]@ == "\nDelete "@ + decimal(n as nat) + " disliked "@ + track_noun(n as nat)
                + " from the library? [y/n]"@,
            forall|k: int| 0 <= k < i ==> #[trigger] lines@[1 + k]@ == pending_line(tracks@[k]),
        decreases listed - i,
    {
        let mut line = String::new();
        append_str(&mut line, "  ");
        append_str(&mut line, tracks[i].name.as_str());
        append_str(&mut line, " — ");
        append_str(&mut line, tracks[i].artist.as_str());
        proof {
            assert(line@ =~= pending_line(tracks@[i as int]));
        }
        lines.push(line);
        i = i + 1;
    }
    if n > LISTED_BEFORE_DELETE {
        let more = decimal_string((n - LISTED_BEFORE_DELETE) as u64);
        let mut tail = String::new();
        append_str(&mut tail, "  … and ");
        append_str(&mut tail, more.as_str());
        append_str(&mut tail, " more");
        proof {
            assert(tail@ =~= "  … and "@ + decimal((n - 10) as nat) + " more"@);
        }
        lines.push(tail);
    }
    lines
}

/// The line reporting a deletion of `n` pending tracks, of which `gone`
/// left the library and `leftover` stayed pending.
pub fn delete_report(n: usize, gone: usize, leftover: usize) -> (s: String)
    ensures
        leftover == 0 ==> s@ == "  Deleted "@ + decimal(gone as nat) + " "@ + track_noun(n as nat)
            + "."@,
        leftover != 0 ==> s@ == "  Deleted "@ + decimal(gone as nat) + "; "@ + decimal(
            leftover as nat,
        ) + " could not be removed."@,
{
    let g = decimal_string(gone as u64);
    let mut s = String::new();
    append_str(&mut s, "  Deleted ");
    append_str(&mut s, g.as_str());
    if leftover == 0 {
        append_str(&mut s, " ");
        if n == 1 {
            append_str(&mut s, "track");
        } else {
            append_str(&mut s, "tracks");
        }
        append_str(&mut s, ".");
        proof {
            assert(s@ =~= "  Deleted "@ + decimal(gone as nat) + " "@ + track_noun(n as nat)
                + "."@);
        }
    } else {
        let l = decimal_string(leftover as u64);
        append_str(&mut s, "; ");
        append_str(&mut s, l.as_str());
        append_str(&mut s, " could not be removed.");
        proof {
            assert(s@ =~= "  Deleted "@ + decimal(gone as nat) + "; "@ + decimal(leftover as nat)
                + " could not be removed."@);
        }
    }
    s
}

} // verus!

verus! {

/// The word logged for a decided track is the word echoed for the answer:
/// dislike, favourite and unfavourite are logged as themselves, and the keep
/// answer (Space, Enter or `y`) is logged as `keep`.
pub proof fn lemma_logged_word_is_echoed(action: Action)
    requires
        action is Dislike || action is Favourite || action is Unfavourite || action is Skip,
    ensures
        crate::decisions::decision_text(decision_of(action)) == echo_label(action).0,
{
}

} // verus!
