//! What a key press means at each prompt of the tool, and the key help line.

use vstd::prelude::*;

use crate::style::{paint, painted, Hue};
use crate::text::{append_str, lemma_occurs_in_middle, occurs_in};

verus! {

/// The answer to the prompt about reusing the cached library index.
#[derive(Debug, Clone, Copy, PartialEq, Eq, Structural)]
pub enum CacheChoice {
    UseCache,
    Reindex,
    Quit,
}

/// What the user asked for while a track plays.
#[derive(Debug, Clone, Copy, PartialEq, Eq, Structural)]
pub enum Action {
    Dislike,
    Favourite,
    Unfavourite,
    Skip,
    Back,
    /// Skip playback forward by this many seconds without deciding the track.
    SeekForward(u32),
    Quit,
}

/// Which of the track-dependent actions are offered.
#[derive(Debug, Clone, Copy, PartialEq, Eq, Structural)]
pub struct ActionFilter {
    pub allow_favourite: bool,
    pub allow_unfavourite: bool,
    pub allow_back: bool,
}

/// A key, as the prompts tell keys apart.
#[derive(Debug, Clone, Copy, PartialEq, Eq, Structural)]
pub enum Key {
    Char(char),
    Enter,
    Other,
}

/// One keyboard event.
#[derive(Debug, Clone, Copy, PartialEq, Eq, Structural)]
pub struct KeyPress {
    pub key: Key,
    /// The Control modifier is held.
    pub ctrl: bool,
    /// The key went down or repeats (a release is not a press).
    pub pressed: bool,
}

impl ActionFilter {
    /// Favourite is offered only for a track that is not favourited yet,
    /// unfavourite only for one that is; back only where allowed.
    pub fn for_track(favorited: bool, allow_back: bool) -> (f: Self)
        ensures
            f.allow_favourite == !favorited,
            f.allow_unfavourite == favorited,
            f.allow_back == allow_back,
    {
        ActionFilter { allow_favourite: !favorited, allow_unfavourite: favorited, allow_back }
    }

    /// The key help line, from its coloured labels: each offered key with
    /// its label, separated by two spaces.
    pub open spec fn help_text(
        self,
        dislike: Seq<char>,
        favourite: Seq<char>,
        unfavourite: Seq<char>,
        keep: Seq<char>,
        seek: Seq<char>,
        back: Seq<char>,
        quit: Seq<char>,
    ) -> Seq<char> {
        "[r] "@ + dislike + (if self.allow_favourite {
            "  [f] "@ + favourite
        } else {
            Seq::empty()
        }) + (if self.allow_unfavourite {
            "  [n] "@ + unfavourite
        } else {
            Seq::empty()
        }) + "  [Space/Enter/y] "@ + keep + "  [0-9] "@ + seek + (if self.allow_back {
            "  [b] "@ + back
        } else {
            Seq::empty()
        }) + "  [q] "@ + quit
    }

    /// The help line for the keys this filter offers, each action's label in
    /// its colour: dislike red, favourite yellow, unfavourite magenta, keep
    /// green, seeking cyan, back blue and quit dark grey.
    pub fn key_help(self) -> (s: String)
        ensures
            exists|
                d: Seq<char>,
                f: Seq<char>,
                u: Seq<char>,
                k: Seq<char>,
                sk: Seq<char>,
                b: Seq<char>,
                q: Seq<char>,
            |
                {
                    &&& painted("dislike"@, Hue::Red, d)
                    &&& painted("favourite"@, Hue::Yellow, f)
                    &&& painted("unfavourite"@, Hue::Magenta, u)
                    &&& painted("keep"@, Hue::Green, k)
                    &&& painted("+10s×n"@, Hue::Cyan, sk)
                    &&& painted("back"@, Hue::Blue, b)
                    &&& painted("quit"@, Hue::DarkGrey, q)
                    &&& s@ == self.help_text(d, f, u, k, sk, b, q)
                },
    {
        let d = paint("dislike", Hue::Red);
        let f = paint("favourite", Hue::Yellow);
        let u = paint("unfavourite", Hue::Magenta);
        let k = paint("keep", Hue::Green);
        let sk = paint("+10s×n", Hue::Cyan);
        let b = paint("back", Hue::Blue);
        let q = paint("quit", Hue::DarkGrey);
        let mut s = String::new();
        append_str(&mut s, "[r] ");
        append_str(&mut s, d.as_str());
        if self.allow_favourite {
            append_str(&mut s, "  [f] ");
            append_str(&mut s, f.as_str());
        }
        if self.allow_unfavourite {
            append_str(&mut s, "  [n] ");
            append_str(&mut s, u.as_str());
        }
        append_str(&mut s, "  [Space/Enter/y] ");
        append_str(&mut s, k.as_str());
        append_str(&mut s, "  [0-9] ");
        append_str(&mut s, sk.as_str());
        if self.allow_back {
            append_str(&mut s, "  [b] ");
            append_str(&mut s, b.as_str());
        }
        append_str(&mut s, "  [q] ");
        append_str(&mut s, q.as_str());
        proof {
            assert(s@ =~= self.help_text(d@, f@, u@, k@, sk@, b@, q@));
        }
        s
    }
}

/// In the key help line each key is followed by its own label: the line
/// starts with `[r]` and the dislike label and ends with `[q]` and the quit
/// label; keep and seek are always listed with their labels; favourite,
/// unfavourite and back are listed with theirs whenever they are offered.
pub proof fn lemma_help_pairs_keys_with_labels(
    filter: ActionFilter,
    dislike: Seq<char>,
    favourite: Seq<char>,
    unfavourite: Seq<char>,
    keep: Seq<char>,
    seek: Seq<char>,
    back: Seq<char>,
    quit: Seq<char>,
)
    ensures
        ({
            let h = filter.help_text(dislike, favourite, unfavourite, keep, seek, back, quit);
            &&& h.len() >= ("[r] "@ + dislike).len()
            &&& h.take(("[r] "@ + dislike).len() as int) == "[r] "@ + dislike
            &&& filter.allow_favourite ==> occurs_in(h, "  [f] "@ + favourite)
            &&& filter.allow_unfavourite ==> occurs_in(h, "  [n] "@ + unfavourite)
            &&& occurs_in(h, "  [Space/Enter/y] "@ + keep)
            &&& occurs_in(h, "  [0-9] "@ + seek)
            &&& filter.allow_back ==> occurs_in(h, "  [b] "@ + back)
            &&& h.len() >= ("  [q] "@ + quit).len()
            &&& h.skip(h.len() - ("  [q] "@ + quit).len()) == "  [q] "@ + quit
        }),
{
    let h = filter.help_text(dislike, favourite, unfavourite, keep, seek, back, quit);
    let head = "[r] "@ + dislike;
    let fav = if filter.allow_favourite {
        "  [f] "@ + favourite
    } else {
        Seq::empty()
    };
    let unfav = if filter.allow_unfavourite {
        "  [n] "@ + unfavourite
    } else {
        Seq::empty()
    };
    let kp = "  [Space/Enter/y] "@ + keep;
    let sp = "  [0-9] "@ + seek;
    let bk = if filter.allow_back {
        "  [b] "@ + back
    } else {
        Seq::empty()
    };
    let tail = "  [q] "@ + quit;
    assert(h =~= head + fav + unfav + kp + sp + bk + tail);
    assert(h.take(head.len() as int) =~= head);
    assert(h.skip(h.len() - tail.len()) =~= tail);
    if filter.allow_favourite {
        lemma_occurs_in_middle(head, fav, unfav + kp + sp + bk + tail);
        assert(h =~= head + fav + (unfav + kp + sp + bk + tail));
    }
    if filter.allow_unfavourite {
        lemma_occurs_in_middle(head + fav, unfav, kp + sp + bk + tail);
        assert(h =~= (head + fav) + unfav + (kp + sp + bk + tail));
    }
    lemma_occurs_in_middle(head + fav + unfav, kp, sp + bk + tail);
    assert(h =~= (head + fav + unfav) + kp + (sp + bk + tail));
    lemma_occurs_in_middle(head + fav + unfav + kp, sp, bk + tail);
    assert(h =~= (head + fav + unfav + kp) + sp + (bk + tail));
    if filter.allow_back {
        lemma_occurs_in_middle(head + fav + unfav + kp + sp, bk, tail);
        assert(h =~= (head + fav + unfav + kp + sp) + bk + tail);
    }
}

/// At the cache prompt, with no quit requested: `r` re-indexes, `c` and Enter
/// keep the cache, `q` and Ctrl-C quit, a letter and its capital give the
/// same answer, a release answers nothing; a quit request quits whatever
/// the event.
pub proof fn lemma_cache_prompt_keys(ctrl: bool, pressed: bool, event: Option<KeyPress>)
    ensures
        cache_choice_of(false, Some(KeyPress { key: Key::Char('r'), ctrl, pressed: true }))
            == Some(CacheChoice::Reindex),
        cache_choice_of(false, Some(KeyPress { key: Key::Char('c'), ctrl: false, pressed: true }))
            == Some(CacheChoice::UseCache),
        cache_choice_of(false, Some(KeyPress { key: Key::Enter, ctrl, pressed: true })) == Some(
            CacheChoice::UseCache,
        ),
        cache_choice_of(false, Some(KeyPress { key: Key::Char('q'), ctrl, pressed: true })) == Some(
            CacheChoice::Quit,
        ),
        cache_choice_of(false, Some(KeyPress { key: Key::Char('c'), ctrl: true, pressed: true }))
            == Some(CacheChoice::Quit),
        cache_choice_of(false, Some(KeyPress { key: Key::Char('r'), ctrl, pressed }))
            == cache_choice_of(false, Some(KeyPress { key: Key::Char('R'), ctrl, pressed })),
        cache_choice_of(false, Some(KeyPress { key: Key::Char('c'), ctrl, pressed }))
            == cache_choice_of(false, Some(KeyPress { key: Key::Char('C'), ctrl, pressed })),
        cache_choice_of(false, Some(KeyPress { key: Key::Char('q'), ctrl, pressed }))
            == cache_choice_of(false, Some(KeyPress { key: Key::Char('Q'), ctrl, pressed })),
        cache_choice_of(false, Some(KeyPress { key: Key::Char('r'), ctrl, pressed: false })) is None,
        cache_choice_of(true, event) == Some(CacheChoice::Quit),
{
}

/// While a track plays, with no quit requested and a counted key press
/// without Ctrl: `r` dislikes, `q` quits, Space, Enter and `y` keep, `f`, `n`
/// and `b` act exactly when offered, and the digit `n` seeks `10 × n`
/// seconds; a letter and its capital give the same answer whatever the
/// modifiers; Ctrl-C and a quit request quit.
pub proof fn lemma_playback_keys(filter: ActionFilter, ctrl: bool, pressed: bool)
    ensures
        ({
            let at = |k: Key| action_of(false, Some(KeyPress { key: k, ctrl: false, pressed: true }), filter);
            let any = |k: Key| action_of(false, Some(KeyPress { key: k, ctrl, pressed }), filter);
            &&& at(Key::Char('r')) == Some(Action::Dislike)
            &&& at(Key::Char('q')) == Some(Action::Quit)
            &&& at(Key::Char(' ')) == Some(Action::Skip)
            &&& at(Key::Enter) == Some(Action::Skip)
            &&& at(Key::Char('y')) == Some(Action::Skip)
            &&& at(Key::Char('f')) == if filter.allow_favourite { Some(Action::Favourite) } else { None }
            &&& at(Key::Char('n')) == if filter.allow_unfavourite { Some(Action::Unfavourite) } else { None }
            &&& at(Key::Char('b')) == if filter.allow_back { Some(Action::Back) } else { None }
            &&& at(Key::Char('0')) == Some(Action::SeekForward(0))
            &&& at(Key::Char('1')) == Some(Action::SeekForward(10))
            &&& at(Key::Char('2')) == Some(Action::SeekForward(20))
            &&& at(Key::Char('3')) == Some(Action::SeekForward(30))
            &&& at(Key::Char('4')) == Some(Action::SeekForward(40))
            &&& at(Key::Char('5')) == Some(Action::SeekForward(50))
            &&& at(Key::Char('6')) == Some(Action::SeekForward(60))
            &&& at(Key::Char('7')) == Some(Action::SeekForward(70))
            &&& at(Key::Char('8')) == Some(Action::SeekForward(80))
            &&& at(Key::Char('9')) == Some(Action::SeekForward(90))
            &&& any(Key::Char('r')) == any(Key::Char('R'))
            &&& any(Key::Char('q')) == any(Key::Char('Q'))
            &&& any(Key::Char('y')) == any(Key::Char('Y'))
            &&& any(Key::Char('f')) == any(Key::Char('F'))
            &&& any(Key::Char('n')) == any(Key::Char('N'))
            &&& any(Key::Char('b')) == any(Key::Char('B'))
            &&& action_of(false, Some(KeyPress { key: Key::Char('c'), ctrl: true, pressed: true }), filter) == Some(Action::Quit)
            &&& action_of(true, Some(KeyPress { key: Key::Char('r'), ctrl, pressed }), filter) == Some(Action::Quit)
        }),
{
}

/// At a yes/no prompt, with no quit requested and a counted key press:
/// `y` is yes, `n` and `q` are no, a letter and its capital give the same
/// answer; Ctrl-C and a quit request are no.
pub proof fn lemma_yes_no_keys(ctrl: bool, pressed: bool)
    ensures
        yes_no_of(false, Some(KeyPress { key: Key::Char('y'), ctrl: false, pressed: true })) == Some(true),
        yes_no_of(false, Some(KeyPress { key: Key::Char('n'), ctrl, pressed: true })) == Some(false),
        yes_no_of(false, Some(KeyPress { key: Key::Char('q'), ctrl, pressed: true })) == Some(false),
        yes_no_of(false, Some(KeyPress { key: Key::Char('c'), ctrl: true, pressed: true })) == Some(false),
        yes_no_of(true, Some(KeyPress { key: Key::Char('y'), ctrl, pressed })) == Some(false),
        yes_no_of(false, Some(KeyPress { key: Key::Char('y'), ctrl, pressed }))
            == yes_no_of(false, Some(KeyPress { key: Key::Char('Y'), ctrl, pressed })),
        yes_no_of(false, Some(KeyPress { key: Key::Char('n'), ctrl, pressed }))
            == yes_no_of(false, Some(KeyPress { key: Key::Char('N'), ctrl, pressed })),
        yes_no_of(false, Some(KeyPress { key: Key::Char('q'), ctrl, pressed }))
            == yes_no_of(false, Some(KeyPress { key: Key::Char('Q'), ctrl, pressed })),
{
}

/// A key press that counts: a press or repeat, not a release.
pub open spec fn counts(p: KeyPress) -> bool {
    p.pressed
}

/// Control-C.
pub open spec fn is_interrupt(p: KeyPress) -> bool {
    p.ctrl && (p.key == Key::Char('c') || p.key == Key::Char('C'))
}

/// The answer at the cache prompt, if the event answers it: a quit request
/// (Ctrl-C caught in the background) or `q` quits, `c` or Enter uses the
/// cache, `r` re-indexes; other keys are ignored.
pub open spec fn cache_choice_of(quit_requested: bool, event: Option<KeyPress>) -> Option<CacheChoice> {
    if quit_requested {
        Some(CacheChoice::Quit)
    } else {
        match event {
            None => None,
            Some(p) => if !counts(p) {
                None
            } else if is_interrupt(p) {
                Some(CacheChoice::Quit)
            } else {
                match p.key {
                    Key::Char('q') | Key::Char('Q') => Some(CacheChoice::Quit),
                    Key::Char('c') | Key::Char('C') | Key::Enter => Some(CacheChoice::UseCache),
                    Key::Char('r') | Key::Char('R') => Some(CacheChoice::Reindex),
                    _ => None,
                }
            },
        }
    }
}

/// Reads the cache prompt's answer from a quit request and a key event.
pub fn cache_choice_for(quit_requested: bool, event: Option<KeyPress>) -> (r: Option<CacheChoice>)
    ensures
        r == cache_choice_of(quit_requested, event),
{
    if quit_requested {
        return Some(CacheChoice::Quit);
    }
    match event {
        None => None,
        Some(p) => {
            if !p.pressed {
                None
            } else if p.ctrl && (p.key == Key::Char('c') || p.key == Key::Char('C')) {
                Some(CacheChoice::Quit)
            } else {
                match p.key {
                    Key::Char('q') | Key::Char('Q') => Some(CacheChoice::Quit),
                    Key::Char('c') | Key::Char('C') | Key::Enter => Some(CacheChoice::UseCache),
                    Key::Char('r') | Key::Char('R') => Some(CacheChoice::Reindex),
                    _ => None,
                }
            }
        },
    }
}

/// The value of an ASCII digit.
pub open spec fn digit_value(c: char) -> int {
    c as int - '0' as int
}

/// The action a key asks for while a track plays, if any: a quit request,
/// Ctrl-C or `q` quits; `r` dislikes; `f`, `n` and `b` favourite, unfavourite
/// and go back where the filter offers them; Space, Enter and `y` keep; a digit
/// `n` seeks forward `10 × n` seconds; other keys are ignored.
pub open spec fn action_of(
    quit_requested: bool,
    event: Option<KeyPress>,
    filter: ActionFilter,
) -> Option<Action> {
    if quit_requested {
        Some(Action::Quit)
    } else {
        match event {
            None => None,
            Some(p) => if !counts(p) {
                None
            } else if is_interrupt(p) {
                Some(Action::Quit)
            } else {
                match p.key {
                    Key::Char('q') | Key::Char('Q') => Some(Action::Quit),
                    Key::Char('r') | Key::Char('R') => Some(Action::Dislike),
                    Key::Char('f') | Key::Char('F') => if filter.allow_favourite {
                        Some(Action::Favourite)
                    } else {
                        None
                    },
                    Key::Char('n') | Key::Char('N') => if filter.allow_unfavourite {
                        Some(Action::Unfavourite)
                    } else {
                        None
                    },
                    Key::Char('b') | Key::Char('B') => if filter.allow_back {
                        Some(Action::Back)
                    } else {
                        None
                    },
                    Key::Char(' ') | Key::Enter | Key::Char('y') | Key::Char('Y') => Some(
                        Action::Skip,
                    ),
                    Key::Char(c) => if '0' <= c <= '9' {
                        Some(Action::SeekForward((digit_value(c) * 10) as u32))
                    } else {
                        None
                    },
                    _ => None,
                }
            },
        }
    }
}

/// The tens of seconds that a digit key asks to seek.
fn digit_seconds(c: char) -> (s: u32)
    requires
        '0' <= c <= '9',
    ensures
        s == digit_value(c) * 10,
{
    ((c as u32) - ('0' as u32)) * 10
}

/// Reads the action from a quit request and a key event.
pub fn action_for(quit_requested: bool, event: Option<KeyPress>, filter: ActionFilter) -> (r:
    Option<Action>)
    ensures
        r == action_of(quit_requested, event, filter),
{
    if quit_requested {
        return Some(Action::Quit);
    }
    match event {
        None => None,
        Some(p) => {
            if !p.pressed {
                None
            } else if p.ctrl && (p.key == Key::Char('c') || p.key == Key::Char('C')) {
                Some(Action::Quit)
            } else {
                match p.key {
                    Key::Char('q') | Key::Char('Q') => Some(Action::Quit),
                    Key::Char('r') | Key::Char('R') => Some(Action::Dislike),
                    Key::Char('f') | Key::Char('F') => if filter.allow_favourite {
                        Some(Action::Favourite)
                    } else {
                        None
                    },
                    Key::Char('n') | Key::Char('N') => if filter.allow_unfavourite {
                        Some(Action::Unfavourite)
                    } else {
                        None
                    },
                    Key::Char('b') | Key::Char('B') => if filter.allow_back {
                        Some(Action::Back)
                    } else {
                        None
                    },
                    Key::Char(' ') | Key::Enter | Key::Char('y') | Key::Char('Y') => Some(
                        Action::Skip,
                    ),
                    Key::Char(c) => if '0' <= c && c <= '9' {
                        Some(Action::SeekForward(digit_seconds(c)))
                    } else {
                        None
                    },
                    _ => None,
                }
            }
        },
    }
}

/// The answer at a yes/no prompt, if the event answers it: `y` is yes;
/// `n`, `q`, Ctrl-C and a quit request are no; other keys are ignored.
pub open spec fn yes_no_of(quit_requested: bool, event: Option<KeyPress>) -> Option<bool> {
    if quit_requested {
        Some(false)
    } else {
        match event {
            None => None,
            Some(p) => if !counts(p) {
                None
            } else if is_interrupt(p) {
                Some(false)
            } else {
                match p.key {
                    Key::Char('y') | Key::Char('Y') => Some(true),
                    Key::Char('n') | Key::Char('N') | Key::Char('q') | Key::Char('Q') => Some(
                        false,
                    ),
                    _ => None,
                }
            },
        }
    }
}

/// Reads a yes/no answer from a quit request and a key event.
pub fn yes_no_for(quit_requested: bool, event: Option<KeyPress>) -> (r: Option<bool>)
    ensures
        r == yes_no_of(quit_requested, event),
{
    if quit_requested {
        return Some(false);
    }
    match event {
        None => None,
        Some(p) => {
            if !p.pressed {
                None
            } else if p.ctrl && (p.key == Key::Char('c') || p.key == Key::Char('C')) {
                Some(false)
            } else {
                match p.key {
                    Key::Char('y') | Key::Char('Y') => Some(true),
                    Key::Char('n') | Key::Char('N') | Key::Char('q') | Key::Char('Q') => Some(
                        false,
                    ),
                    _ => None,
                }
            }
        },
    }
}

} // verus!
