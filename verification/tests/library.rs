use std::cmp::Ordering;

use track_sweep::decisions::{append_text, csv_escape, decisions_path, Decision};
use track_sweep::disliked::{disliked_path, DislikedSet, DislikedTrack};
use track_sweep::apple_music::next_index_offset;
use track_sweep::index_cache::{cache_worth_writing, index_path, index_source, IndexSource};
use track_sweep::input::CacheChoice;
use track_sweep::progress::{is_white_space, legacy_entry, progress_path, resume_label, trim_text, ProgressEntry};
use track_sweep::provider::{
    resume_start_index, resume_warning, sort_library_order, ResumeCursor, ResumeWarning, TrackInfo,
};
use track_sweep::text::{contains_text, decimal_string};

fn cur(id: &str, date: Option<&str>) -> ResumeCursor {
    ResumeCursor {
        id: id.to_string(),
        date_added: date.map(str::to_string),
    }
}

fn track(id: &str, name: &str) -> TrackInfo {
    TrackInfo {
        id: id.into(),
        name: name.into(),
        artist: "Artist".into(),
        album: "Album".into(),
        date_added: None,
        duration_ms: 1000,
        favorited: false,
    }
}

fn sample_track() -> TrackInfo {
    TrackInfo {
        id: "id".into(),
        name: "Hello, World".into(),
        artist: "Artist \"X\"".into(),
        album: "Album".into(),
        date_added: None,
        duration_ms: 1000,
        favorited: false,
    }
}

fn ids_of(order: &[ResumeCursor]) -> Vec<String> {
    order.iter().map(|c| c.id.clone()).collect()
}

#[test]
fn resume_from_start() {
    let order = vec![cur("a", Some("2020")), cur("b", Some("2021"))];
    assert_eq!(resume_start_index(&order, None), 0);
}

#[test]
fn resume_after_id() {
    let order = vec![cur("a", Some("2020")), cur("b", Some("2021")), cur("c", Some("2022"))];
    assert_eq!(resume_start_index(&order, Some(&cur("a", Some("2020")))), 1);
    assert_eq!(resume_start_index(&order, Some(&cur("b", Some("2021")))), 2);
}

#[test]
fn resume_missing_id_uses_date() {
    let order = vec![cur("a", Some("2020")), cur("c", Some("2022"))];
    let after = cur("gone", Some("2021"));
    assert_eq!(resume_start_index(&order, Some(&after)), 1);
}

#[test]
fn resume_missing_id_without_date_starts_over() {
    let order = vec![cur("a", Some("2020")), cur("c", Some("2022"))];
    let after = cur("gone", None);
    assert_eq!(resume_start_index(&order, Some(&after)), 0);
    assert!(matches!(
        resume_warning(&order, Some(&after)),
        Some(ResumeWarning::StartingFromOldest)
    ));
    assert!(matches!(
        resume_warning(&order, Some(&cur("gone", Some("2021")))),
        Some(ResumeWarning::ResumingAfterDate)
    ));
    assert!(resume_warning(&order, Some(&cur("a", None))).is_none());
    assert!(resume_warning(&order, None).is_none());
}

#[test]
fn resume_after_last_date_reaches_end() {
    let order = vec![cur("a", Some("2020")), cur("c", Some("2022"))];
    assert_eq!(resume_start_index(&order, Some(&cur("gone", Some("2030")))), 2);
    assert_eq!(resume_start_index(&order, Some(&cur("c", Some("2022")))), 2);
}

#[test]
fn resume_warning_messages() {
    assert_eq!(
        ResumeWarning::ResumingAfterDate.message(),
        "Warning: progress track id not in library; resuming after saved date added."
    );
    assert_eq!(
        ResumeWarning::StartingFromOldest.message(),
        "Warning: progress track id not in library and no date added saved; starting from oldest remaining."
    );
}

#[test]
fn cmp_order_by_date_then_id_missing_dates_last() {
    let a = cur("b", Some("2020"));
    let b = cur("a", Some("2021"));
    assert_eq!(ResumeCursor::cmp_order(&a, &b), Ordering::Less);
    assert_eq!(ResumeCursor::cmp_order(&b, &a), Ordering::Greater);
    let same_date = cur("a", Some("2020"));
    assert_eq!(ResumeCursor::cmp_order(&same_date, &a), Ordering::Less);
    let undated = cur("0", None);
    assert_eq!(ResumeCursor::cmp_order(&a, &undated), Ordering::Less);
    assert_eq!(ResumeCursor::cmp_order(&undated, &a), Ordering::Greater);
    assert_eq!(ResumeCursor::cmp_order(&cur("x", None), &cur("y", None)), Ordering::Less);
    assert_eq!(ResumeCursor::cmp_order(&a, &cur("b", Some("2020"))), Ordering::Equal);
    // a prefix sorts first
    assert_eq!(
        ResumeCursor::cmp_order(&cur("a", Some("2020-01")), &cur("a", Some("2020-01-02"))),
        Ordering::Less
    );
}

#[test]
fn sort_matches_std_sort() {
    let tracks = vec![
        cur("n1", None),
        cur("b", Some("2021-01-01T00:00:00.000Z")),
        cur("a", Some("2021-01-01T00:00:00.000Z")),
        cur("z", Some("2019-05-05T00:00:00.000Z")),
        cur("n0", None),
        cur("é", Some("2020-01-01T00:00:00.000Z")),
        cur("e", Some("2020-01-01T00:00:00.000Z")),
    ];
    let sorted = sort_library_order(&tracks);
    assert_eq!(ids_of(&sorted), vec!["z", "e", "é", "a", "b", "n0", "n1"]);

    let mut expected: Vec<(Option<String>, String)> = tracks
        .iter()
        .map(|c| (c.date_added.clone(), c.id.clone()))
        .collect();
    expected.sort_by(|x, y| match (&x.0, &y.0) {
        (Some(p), Some(q)) => p.cmp(q).then(x.1.cmp(&y.1)),
        (Some(_), None) => Ordering::Less,
        (None, Some(_)) => Ordering::Greater,
        (None, None) => x.1.cmp(&y.1),
    });
    let got: Vec<(Option<String>, String)> = sorted
        .iter()
        .map(|c| (c.date_added.clone(), c.id.clone()))
        .collect();
    assert_eq!(got, expected);
    assert!(sort_library_order(&Vec::new()).is_empty());
}

#[test]
fn sort_large_library() {
    let mut tracks = Vec::new();
    for i in 0..1000u32 {
        let k = (i * 7919) % 1000;
        tracks.push(cur(&format!("id{k:04}"), Some(&format!("2020-{:02}", k % 12))));
    }
    let sorted = sort_library_order(&tracks);
    assert_eq!(sorted.len(), 1000);
    for w in sorted.windows(2) {
        assert_ne!(ResumeCursor::cmp_order(&w[0], &w[1]), Ordering::Greater);
    }
}

#[test]
fn writes_header_and_escaped_row() {
    let mut contents = String::new();
    contents.push_str(&append_text(true, &sample_track(), Decision::Keep));
    contents.push_str(&append_text(
        false,
        &TrackInfo {
            name: "Plain".into(),
            artist: "A".into(),
            album: "B".into(),
            favorited: true,
            ..sample_track()
        },
        Decision::Favourite,
    ));
    let lines: Vec<_> = contents.lines().collect();
    assert_eq!(lines[0], "title,album,artist,decision");
    assert_eq!(lines[1], "\"Hello, World\",Album,\"Artist \"\"X\"\"\",keep");
    assert_eq!(lines[2], "Plain,B,A,favourite");
}

#[test]
fn csv_escape_quotes_only_when_needed() {
    assert_eq!(csv_escape("plain"), "plain");
    assert_eq!(csv_escape(""), "");
    assert_eq!(csv_escape("a,b"), "\"a,b\"");
    assert_eq!(csv_escape("say \"hi\""), "\"say \"\"hi\"\"\"");
    assert_eq!(csv_escape("two\nlines"), "\"two\nlines\"");
    assert_eq!(csv_escape("cr\r"), "\"cr\r\"");
}

#[test]
fn decision_words() {
    assert_eq!(Decision::Keep.as_str(), "keep");
    assert_eq!(Decision::Favourite.as_str(), "favourite");
    assert_eq!(Decision::Unfavourite.as_str(), "unfavourite");
    assert_eq!(Decision::Dislike.as_str(), "dislike");
    assert_eq!(
        append_text(false, &track("x", "T"), Decision::Dislike),
        "T,Album,Artist,dislike\n"
    );
}

#[test]
fn file_names() {
    assert_eq!(decisions_path(), "decisions.csv");
    assert_eq!(disliked_path(), "disliked.json");
    assert_eq!(progress_path(), "progress.json");
    assert_eq!(index_path(), "index.json");
    assert!(cache_worth_writing(&[cur("a", None)]));
    assert!(!cache_worth_writing(&[]));
}

#[test]
fn add_dedupes_and_round_trips() {
    let mut set = DislikedSet::from_loaded("disliked-test.json".to_string(), None);
    set.add(&track("a", "One"));
    set.add(&track("b", "Two"));
    set.add(&track("a", "One renamed"));
    assert_eq!(set.len(), 2);
    assert_eq!(set.tracks()[0].id, "b");
    assert_eq!(set.tracks()[1].name, "One renamed");
    assert_eq!(set.path(), "disliked-test.json");

    let changed = set.remove_id("b");
    assert!(changed);
    assert_eq!(set.ids(), vec!["a".to_string()]);
    let changed = set.remove_ids(&["a".into()]);
    assert!(changed);
    assert!(set.is_empty());
}

#[test]
fn removing_unknown_ids_changes_nothing() {
    let loaded = vec![
        DislikedTrack { id: "a".into(), name: "A".into(), artist: "X".into() },
        DislikedTrack { id: "b".into(), name: "B".into(), artist: "Y".into() },
    ];
    let mut set = DislikedSet::from_loaded("d.json".to_string(), Some(loaded));
    assert!(!set.remove_id("zzz"));
    assert!(!set.remove_ids(&[]));
    assert!(!set.remove_ids(&["q".to_string()]));
    assert_eq!(set.len(), 2);
    assert!(set.remove_ids(&["b".to_string(), "c".to_string()]));
    assert_eq!(set.ids(), vec!["a".to_string()]);
}

#[test]
fn progress_entry_from_track_and_label() {
    let mut t = track("ABC123", "Song Title");
    t.artist = "An Artist".into();
    t.date_added = Some("2020-01-02T03:04:05.000Z".into());
    let e = ProgressEntry::from_track(&t);
    assert_eq!(e.id, "ABC123");
    assert_eq!(e.date_added.as_deref(), Some("2020-01-02T03:04:05.000Z"));
    assert_eq!(e.name, "Song Title");
    assert_eq!(e.artist, "An Artist");
    assert_eq!(resume_label(&e), "Song Title — An Artist");
    let c = e.cursor();
    assert_eq!(c.id, "ABC123");
    assert_eq!(c.date_added.as_deref(), Some("2020-01-02T03:04:05.000Z"));

    let bare = ProgressEntry {
        id: "XYZ".into(),
        date_added: None,
        name: String::new(),
        artist: String::new(),
    };
    assert_eq!(resume_label(&bare), "XYZ");
}

#[test]
fn legacy_progress_is_trimmed_id() {
    let e = legacy_entry("  A1B2C3\n").unwrap();
    assert_eq!(e.id, "A1B2C3");
    assert!(e.date_added.is_none());
    assert!(e.name.is_empty());
    assert!(e.artist.is_empty());
    assert!(legacy_entry(" \n\t ").is_none());
    assert!(legacy_entry("").is_none());
}

#[test]
fn trim_matches_std() {
    for s in ["", "  x  ", "\u{3000}a b\u{00a0}", "\t\r\nq", "none", " \u{2028} "] {
        assert_eq!(trim_text(s), s.trim());
    }
}

#[test]
fn decimal_and_contains() {
    assert_eq!(decimal_string(0), "0");
    assert_eq!(decimal_string(7), "7");
    assert_eq!(decimal_string(250), "250");
    assert_eq!(decimal_string(u64::MAX), u64::MAX.to_string());
    assert!(contains_text("abc (-1743) x", "(-1743)"));
    assert!(contains_text("abc", ""));
    assert!(!contains_text("ab", "abc"));
    assert!(!contains_text("not authorised", "not authorized"));
}

#[test]
fn white_space_matches_std() {
    for c in (0u32..=0x10FFFF).filter_map(char::from_u32) {
        assert_eq!(is_white_space(c), c.is_whitespace(), "U+{:04X}", c as u32);
    }
}

#[test]
fn index_steps() {
    assert_eq!(next_index_offset(0, 250), Some(250));
    assert_eq!(next_index_offset(250, 7), Some(257));
    assert_eq!(next_index_offset(250, 0), None);
    assert_eq!(index_source(None), IndexSource::Rebuild);
    assert_eq!(index_source(Some(CacheChoice::UseCache)), IndexSource::Cached);
    assert_eq!(index_source(Some(CacheChoice::Reindex)), IndexSource::Rebuild);
    assert_eq!(index_source(Some(CacheChoice::Quit)), IndexSource::Stop);
}

#[test]
fn pending_ids_stay_distinct() {
    let mut set = DislikedSet::from_loaded("d.json".to_string(), None);
    for id in ["a", "b", "a", "c", "b", "a"] {
        set.add(&track(id, id));
    }
    assert_eq!(set.ids(), vec!["c".to_string(), "b".to_string(), "a".to_string()]);
    set.remove_ids(&["c".to_string()]);
    set.remove_id("zz");
    assert_eq!(set.ids(), vec!["b".to_string(), "a".to_string()]);
}
