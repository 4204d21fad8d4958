use track_sweep::apple_music::{
    is_permission_denied, remove_chunks, AppleMusicProvider, FETCH_BATCH_0, FETCH_BATCH_1,
    FETCH_BATCH_2, FIND_TRACK_0, FIND_TRACK_1, FIND_TRACK_2, GET_TRACK_0, GET_TRACK_1,
    REMOVE_CHUNK_0, REMOVE_CHUNK_1, SET_POSITION_0, SET_POSITION_1,
};
use track_sweep::decisions::Decision;
use track_sweep::disliked::DislikedSet;
use track_sweep::input::{
    action_for, cache_choice_for, yes_no_for, Action, ActionFilter, CacheChoice, Key, KeyPress,
};
use track_sweep::provider::{resume_start_index, ResumeCursor, TrackInfo};
use track_sweep::sweep::{
    action_echo, delete_prompt_lines, delete_report, rewind_progress, should_seek_on_play,
    track_line, wait_step, Outcome, PlayerCall, ProgressUpdate, Sweep, WaitStep,
};

fn cur(id: &str, date: Option<&str>) -> ResumeCursor {
    ResumeCursor {
        id: id.to_string(),
        date_added: date.map(str::to_string),
    }
}

fn track(id: &str, favorited: bool) -> TrackInfo {
    TrackInfo {
        id: id.into(),
        name: format!("Name {id}"),
        artist: "Artist".into(),
        album: "Album".into(),
        date_added: Some(format!("2020-{id}")),
        duration_ms: 61_000,
        favorited,
    }
}

fn press(c: char) -> Option<KeyPress> {
    Some(KeyPress { key: Key::Char(c), ctrl: false, pressed: true })
}

fn order() -> Vec<ResumeCursor> {
    vec![cur("a", Some("2020-a")), cur("b", Some("2020-b")), cur("c", Some("2020-c"))]
}

/// The forms crossterm may print a coloured text in on a terminal with ANSI codes.
fn is_painted(s: &str, text: &str, code: &str) -> bool {
    s == format!("\x1b[38;{code}m{text}\x1b[39m") || s == format!("\x1b[m{text}\x1b[m")
}

#[test]
fn filter_offers_favourite_or_unfavourite() {
    let f = ActionFilter::for_track(false, true);
    assert!(f.allow_favourite && !f.allow_unfavourite && f.allow_back);
    let f = ActionFilter::for_track(true, false);
    assert!(!f.allow_favourite && f.allow_unfavourite && !f.allow_back);
}

#[test]
fn key_mapping_during_playback() {
    let all = ActionFilter { allow_favourite: true, allow_unfavourite: true, allow_back: true };
    let none = ActionFilter { allow_favourite: false, allow_unfavourite: false, allow_back: false };
    assert_eq!(action_for(true, None, none), Some(Action::Quit));
    assert_eq!(action_for(false, None, all), None);
    assert_eq!(action_for(false, press('r'), none), Some(Action::Dislike));
    assert_eq!(action_for(false, press('R'), none), Some(Action::Dislike));
    assert_eq!(action_for(false, press('f'), all), Some(Action::Favourite));
    assert_eq!(action_for(false, press('f'), none), None);
    assert_eq!(action_for(false, press('n'), all), Some(Action::Unfavourite));
    assert_eq!(action_for(false, press('N'), none), None);
    assert_eq!(action_for(false, press('b'), all), Some(Action::Back));
    assert_eq!(action_for(false, press('b'), none), None);
    assert_eq!(action_for(false, press(' '), none), Some(Action::Skip));
    assert_eq!(action_for(false, press('y'), none), Some(Action::Skip));
    assert_eq!(
        action_for(false, Some(KeyPress { key: Key::Enter, ctrl: false, pressed: true }), none),
        Some(Action::Skip)
    );
    assert_eq!(action_for(false, press('3'), none), Some(Action::SeekForward(30)));
    assert_eq!(action_for(false, press('0'), none), Some(Action::SeekForward(0)));
    assert_eq!(action_for(false, press('9'), none), Some(Action::SeekForward(90)));
    assert_eq!(action_for(false, press('q'), none), Some(Action::Quit));
    assert_eq!(action_for(false, press('x'), all), None);
    assert_eq!(
        action_for(false, Some(KeyPress { key: Key::Char('c'), ctrl: true, pressed: true }), all),
        Some(Action::Quit)
    );
    assert_eq!(
        action_for(false, Some(KeyPress { key: Key::Char('r'), ctrl: false, pressed: false }), all),
        None
    );
    assert_eq!(
        action_for(false, Some(KeyPress { key: Key::Other, ctrl: false, pressed: true }), all),
        None
    );
}

#[test]
fn cache_prompt_keys() {
    assert_eq!(cache_choice_for(true, None), Some(CacheChoice::Quit));
    assert_eq!(cache_choice_for(false, press('c')), Some(CacheChoice::UseCache));
    assert_eq!(
        cache_choice_for(false, Some(KeyPress { key: Key::Enter, ctrl: false, pressed: true })),
        Some(CacheChoice::UseCache)
    );
    assert_eq!(cache_choice_for(false, press('R')), Some(CacheChoice::Reindex));
    assert_eq!(cache_choice_for(false, press('q')), Some(CacheChoice::Quit));
    assert_eq!(
        cache_choice_for(false, Some(KeyPress { key: Key::Char('C'), ctrl: true, pressed: true })),
        Some(CacheChoice::Quit)
    );
    assert_eq!(cache_choice_for(false, press('z')), None);
}

#[test]
fn yes_no_prompt_keys() {
    assert_eq!(yes_no_for(false, press('y')), Some(true));
    assert_eq!(yes_no_for(false, press('Y')), Some(true));
    assert_eq!(yes_no_for(false, press('n')), Some(false));
    assert_eq!(yes_no_for(false, press('q')), Some(false));
    assert_eq!(yes_no_for(true, press('y')), Some(false));
    assert_eq!(yes_no_for(false, press('k')), None);
    assert_eq!(yes_no_for(false, None), None);
}

#[test]
fn key_help_lists_offered_keys() {
    let f = ActionFilter::for_track(false, false);
    let help = f.key_help();
    assert!(help.starts_with("[r] "));
    assert!(help.contains("  [f] "));
    assert!(!help.contains("[n]"));
    assert!(!help.contains("[b]"));
    assert!(help.contains("dislike") && help.contains("+10s×n") && help.contains("quit"));
    let help = ActionFilter::for_track(true, true).key_help();
    assert!(help.contains("  [n] ") && help.contains("  [b] ") && !help.contains("[f]"));
}

#[test]
fn labels_are_coloured_by_crossterm() {
    let help = ActionFilter::for_track(false, false).key_help();
    let first = help.strip_prefix("[r] ").unwrap().split("  [f] ").next().unwrap();
    assert!(is_painted(first, "dislike", "5;9"));
    let last = help.rsplit("  [q] ").next().unwrap();
    assert!(is_painted(last, "quit", "5;8"));
    let echo = action_echo(Action::Dislike);
    assert!(is_painted(echo.strip_prefix("  → ").unwrap(), "dislike", "5;9"));
    let line = track_line(1, 1, &track("a", false), "H");
    assert!(line.contains("\x1b[") && line.contains("\x1b[1mName a\x1b[0m"));
}

#[test]
fn sweep_decides_and_moves_on() {
    let mut sweep = Sweep::new(order(), 0);
    let mut pending = DislikedSet::from_loaded("d.json".into(), None);
    assert_eq!(sweep.total(), 3);
    assert_eq!(sweep.current().unwrap().id, "a");
    let t = track("a", false);
    let f = sweep.filter_for(&t);
    assert!(!f.allow_back);
    match sweep.apply(&t, Action::Dislike, &mut pending) {
        Outcome::Decided { call, decision, disliked_changed, progress } => {
            assert_eq!(call, Some(PlayerCall::SetDisliked(true)));
            assert_eq!(decision, Decision::Dislike);
            assert!(disliked_changed);
            assert_eq!(progress.id, "a");
            // the next run resumes right after the saved track
            assert_eq!(resume_start_index(&order(), Some(&progress.cursor())), 1);
        }
        _ => panic!("expected a decision"),
    }
    assert_eq!(sweep.position(), 1);
    assert_eq!(pending.ids(), vec!["a".to_string()]);

    let t = track("b", true);
    assert!(sweep.filter_for(&t).allow_back);
    match sweep.apply(&t, Action::Skip, &mut pending) {
        Outcome::Decided { call, decision, disliked_changed, .. } => {
            assert_eq!(call, None);
            assert_eq!(decision, Decision::Keep);
            assert!(!disliked_changed);
        }
        _ => panic!("expected a decision"),
    }
    match sweep.apply(&track("c", false), Action::Back, &mut pending) {
        Outcome::Back { update: ProgressUpdate::Save(e) } => {
            assert_eq!(e.id, "a");
            assert!(e.name.is_empty());
            assert_eq!(resume_start_index(&order(), Some(&e.cursor())), 1);
        }
        _ => panic!("expected back with a saved entry"),
    }
    assert_eq!(sweep.position(), 1);
    // keeping a disliked track takes it off the pending list and clears the dislike
    match sweep.apply(&track("a", false), Action::Skip, &mut pending) {
        Outcome::Decided { call, disliked_changed, .. } => {
            assert_eq!(call, Some(PlayerCall::SetDisliked(false)));
            assert!(disliked_changed);
        }
        _ => panic!("expected a decision"),
    }
    assert!(pending.is_empty());
    assert!(matches!(
        sweep.apply(&track("c", false), Action::Quit, &mut pending),
        Outcome::Quit
    ));
    assert_eq!(sweep.position(), 2);
    let e = sweep.skip_missing();
    assert_eq!(e.id, "c");
    assert!(sweep.is_finished());
    assert!(sweep.current().is_none());
}

#[test]
fn back_at_start_and_rewind_to_start() {
    let mut sweep = Sweep::new(order(), 0);
    let mut pending = DislikedSet::from_loaded("d.json".into(), None);
    assert!(matches!(
        sweep.apply(&track("a", false), Action::Back, &mut pending),
        Outcome::Back { update: ProgressUpdate::Unchanged }
    ));
    let mut sweep = Sweep::new(order(), 1);
    assert!(matches!(
        sweep.apply(&track("b", false), Action::Back, &mut pending),
        Outcome::Back { update: ProgressUpdate::Clear }
    ));
    assert_eq!(sweep.position(), 0);
    assert!(matches!(rewind_progress(&order(), 0), ProgressUpdate::Clear));
    match rewind_progress(&order(), 2) {
        ProgressUpdate::Save(e) => assert_eq!(e.id, "b"),
        _ => panic!("expected a saved entry"),
    }
}

#[test]
fn favourite_and_unfavourite_calls() {
    let mut sweep = Sweep::new(order(), 0);
    let mut pending = DislikedSet::from_loaded("d.json".into(), None);
    match sweep.apply(&track("a", false), Action::Favourite, &mut pending) {
        Outcome::Decided { call, decision, .. } => {
            assert_eq!(call, Some(PlayerCall::SetFavorited(true)));
            assert_eq!(decision, Decision::Favourite);
        }
        _ => panic!("expected a decision"),
    }
    match sweep.apply(&track("b", true), Action::Unfavourite, &mut pending) {
        Outcome::Decided { call, decision, .. } => {
            assert_eq!(call, Some(PlayerCall::SetFavorited(false)));
            assert_eq!(decision, Decision::Unfavourite);
        }
        _ => panic!("expected a decision"),
    }
}

#[test]
fn seeking_waits() {
    assert_eq!(wait_step(Action::SeekForward(0)), WaitStep::Ignore);
    assert_eq!(wait_step(Action::SeekForward(40)), WaitStep::SeekBy(40));
    assert_eq!(wait_step(Action::Skip), WaitStep::Proceed);
    assert!(should_seek_on_play(&track("a", false)));
    let mut short = track("a", false);
    short.duration_ms = 60_000;
    assert!(!should_seek_on_play(&short));
}

#[test]
fn printed_lines() {
    let t = track("a", true);
    let line = track_line(2, 10, &t, "HELP");
    assert!(line.starts_with("\r\n[2/10] "));
    assert!(line.contains("Name a"));
    assert!(line.contains(" — Artist (Album) "));
    assert!(line.contains("★"));
    assert!(line.ends_with("\r\n  HELP\r\n> "));
    assert!(!track_line(1, 1, &track("b", false), "H").contains("★"));
    let echo = action_echo(Action::SeekForward(30));
    assert!(echo.starts_with("  → ") && echo.contains("+30s"));
    assert!(action_echo(Action::Skip).contains("keep"));
}

#[test]
fn delete_prompt_and_report() {
    let mut pending = DislikedSet::from_loaded("d.json".into(), None);
    for i in 0..12 {
        pending.add(&track(&format!("{i}"), false));
    }
    let lines = delete_prompt_lines(&pending);
    assert_eq!(lines.len(), 12);
    assert_eq!(lines[0], "\nDelete 12 disliked tracks from the library? [y/n]");
    assert_eq!(lines[1], "  Name 0 — Artist");
    assert_eq!(lines[10], "  Name 9 — Artist");
    assert_eq!(lines[11], "  … and 2 more");

    let mut one = DislikedSet::from_loaded("d.json".into(), None);
    one.add(&track("x", false));
    let lines = delete_prompt_lines(&one);
    assert_eq!(lines, vec!["\nDelete 1 disliked track from the library? [y/n]", "  Name x — Artist"]);

    assert_eq!(delete_report(1, 1, 0), "  Deleted 1 track.");
    assert_eq!(delete_report(3, 3, 0), "  Deleted 3 tracks.");
    assert_eq!(delete_report(3, 1, 2), "  Deleted 1; 2 could not be removed.");
}

#[test]
fn scripts_embed_escaped_ids() {
    assert_eq!(AppleMusicProvider::js_string("a'b\\c\nd\re"), "'a\\'b\\\\c\\nd\\re'");
    assert_eq!(AppleMusicProvider::js_string(""), "''");
    let s = AppleMusicProvider::find_track_script("ID'1", "track.play();");
    assert_eq!(s, format!("{FIND_TRACK_0}'ID\\'1'{FIND_TRACK_1}track.play();{FIND_TRACK_2}"));
    assert!(s.contains("whose({ persistentID: id })"));
    assert_eq!(
        AppleMusicProvider::set_favorited_script("X", false),
        format!("{FIND_TRACK_0}'X'{FIND_TRACK_1}track.favorited = false;{FIND_TRACK_2}")
    );
    assert_eq!(
        AppleMusicProvider::set_disliked_script("X", true),
        format!("{FIND_TRACK_0}'X'{FIND_TRACK_1}track.disliked = true;{FIND_TRACK_2}")
    );
    assert_eq!(
        AppleMusicProvider::fetch_cursor_batch_script(500, 250),
        format!("{FETCH_BATCH_0}500{FETCH_BATCH_1}250{FETCH_BATCH_2}")
    );
    assert_eq!(
        AppleMusicProvider::get_track_script("Q"),
        format!("{GET_TRACK_0}'Q'{GET_TRACK_1}")
    );
    assert_eq!(
        AppleMusicProvider::remove_chunk_script(&["a".into(), "b'".into()]),
        format!("{REMOVE_CHUNK_0}'a','b\\''{REMOVE_CHUNK_1}")
    );
    assert_eq!(
        AppleMusicProvider::set_player_position_script(30, false),
        format!("{SET_POSITION_0}30{SET_POSITION_1}")
    );
    assert_eq!(
        AppleMusicProvider::set_player_position_script(20, true),
        format!("{SET_POSITION_0}Number(app.playerPosition()) + 20{SET_POSITION_1}")
    );
}

#[test]
fn permission_errors_and_chunks() {
    assert!(is_permission_denied("execution error: Not authorized... not authorized to send (-1743)"));
    assert!(is_permission_denied("osascript is not allowed assistive access"));
    assert!(!is_permission_denied("syntax error"));

    let ids: Vec<String> = (0..250).map(|i| i.to_string()).collect();
    let chunks = remove_chunks(&ids);
    assert_eq!(chunks.len(), 3);
    assert_eq!(chunks[0].len(), 100);
    assert_eq!(chunks[2].len(), 50);
    assert_eq!(chunks[2][0], "200");
    assert!(remove_chunks(&[]).is_empty());
    assert_eq!(remove_chunks(&ids[..100]).len(), 1);
}
