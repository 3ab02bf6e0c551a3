use std::cmp::Ordering;

use local_entries::local::utils::{get_local_entries, is_playable, ChildKind, DirChild, TrackTags};
use local_entries::local::{sort_entries, LocalEntries, LocalEntry, TrackDuration};
use local_entries::text::{compare_text, text_eq_ignore_ascii_case};
use local_entries::ui::utils::{adjust_list_state, adjust_table_state, to_bidi_string};

fn dir(path: &str) -> LocalEntry {
    LocalEntry::Directory { full_path: path.to_string() }
}

fn playable(path: &str) -> LocalEntry {
    LocalEntry::Playable {
        full_path: path.to_string(),
        selected: false,
        title: None,
        artists: None,
        duration: None,
        album: None,
        genre: None,
    }
}

fn child(path: &str, name: &str, kind: ChildKind) -> DirChild {
    DirChild { path: path.to_string(), name: name.to_string(), kind, tags: None }
}

fn names(entries: &LocalEntries) -> Vec<String> {
    entries.entries().iter().map(|e| e.name()).collect()
}

fn selected_flags(entries: &LocalEntries) -> Vec<bool> {
    entries.entries().iter().map(|e| e.selected()).collect()
}

#[test]
fn directory_is_never_selected() {
    let mut d = dir("/music/rock");
    assert!(!d.selected());
    d.set_selected(true);
    assert!(!d.selected());
    assert_eq!(d.full_path(), "/music/rock");
}

#[test]
fn playable_selection_toggles() {
    let mut p = playable("/music/a.mp3");
    p.set_selected(true);
    assert!(p.selected());
    p.set_selected(false);
    assert!(!p.selected());
}

#[test]
fn select_in_bounds_marks_exactly_one() {
    let mut c = LocalEntries::new(vec![playable("/m/a.mp3"), playable("/m/b.mp3"), playable("/m/c.mp3")]);
    c.select(0);
    c.select(1);
    assert_eq!(selected_flags(&c), vec![false, true, false]);
}

#[test]
fn select_out_of_bounds_clears_all() {
    let mut c = LocalEntries::new(vec![playable("/m/a.mp3"), playable("/m/b.mp3")]);
    c.select(1);
    c.select(5);
    assert_eq!(selected_flags(&c), vec![false, false]);
}

#[test]
fn select_directory_selects_nothing() {
    let mut c = LocalEntries::new(vec![dir(".."), playable("/m/b.mp3")]);
    c.select(0);
    assert_eq!(selected_flags(&c), vec![false, false]);
}

#[test]
fn unselect_all_clears() {
    let mut c = LocalEntries::new(vec![playable("/m/a.mp3"), playable("/m/b.mp3")]);
    c.select(0);
    c.unselect_all();
    assert_eq!(selected_flags(&c), vec![false, false]);
}

#[test]
fn directories_sort_before_playables() {
    let d = dir("/m/zzz");
    let p = playable("/m/aaa.mp3");
    assert_eq!(d.cmp(&p), Ordering::Less);
    assert_eq!(p.cmp(&d), Ordering::Greater);
    assert!(d < p);
    assert!(d != p);
}

#[test]
fn same_kind_compares_by_file_name() {
    let a = playable("/z/a.flac");
    let b = playable("/a/b.mp3");
    assert_eq!(a.cmp(&b), Ordering::Less);
    assert!(dir("/x/beta") > dir("/a/alpha"));
    assert!(playable("/one/x.mp3") == playable("/two/x.mp3"));
}

#[test]
fn equality_ignores_title_tag() {
    let mut tagged = playable("/m/x.mp3");
    if let LocalEntry::Playable { title, .. } = &mut tagged {
        *title = Some("Zebra".to_string());
    }
    assert_eq!(tagged.name(), "Zebra");
    assert!(tagged == playable("/other/x.mp3"));
    assert_eq!(tagged.cmp(&playable("/m/y.mp3")), Ordering::Less);
}

#[test]
fn sorting_sorted_entries_keeps_them() {
    let mut v = vec![dir(".."), dir("/m/z"), playable("/m/a.flac"), playable("/m/b.mp3")];
    sort_entries(&mut v);
    let first: Vec<String> = v.iter().map(|e| e.full_path().clone()).collect();
    sort_entries(&mut v);
    let second: Vec<String> = v.iter().map(|e| e.full_path().clone()).collect();
    assert_eq!(first, vec!["..", "/m/z", "/m/a.flac", "/m/b.mp3"]);
    assert_eq!(first, second);
}

#[test]
fn sorting_is_stable_for_equal_names() {
    let mut v = vec![playable("/b/x.mp3"), playable("/a/x.mp3"), dir("/q/d")];
    sort_entries(&mut v);
    let paths: Vec<String> = v.iter().map(|e| e.full_path().clone()).collect();
    assert_eq!(paths, vec!["/q/d", "/b/x.mp3", "/a/x.mp3"]);
}

#[test]
fn scan_orders_directories_then_files() {
    let children = vec![
        child("/music/b.mp3", "b.mp3", ChildKind::File),
        child("/music/a.flac", "a.flac", ChildKind::File),
        child("/music/z", "z", ChildKind::Directory),
    ];
    let c = get_local_entries(true, children);
    assert_eq!(names(&c), vec!["..", "z", "a.flac", "b.mp3"]);
}

#[test]
fn scan_of_non_directory_is_empty() {
    let c = get_local_entries(false, vec![child("/music/z", "z", ChildKind::Directory)]);
    assert_eq!(c.entries().len(), 0);
}

#[test]
fn scan_skips_unplayable_files() {
    let children = vec![
        child("/music/track.txt", "track.txt", ChildKind::File),
        child("/music/pipe", "pipe", ChildKind::Other),
    ];
    let c = get_local_entries(true, children);
    assert_eq!(names(&c), vec![".."]);
}

#[test]
fn scan_applies_tags() {
    let mut song = child("/music/s.MP3", "s.MP3", ChildKind::File);
    song.tags = Some(TrackTags {
        title: Some("Song".to_string()),
        artists: Some(vec!["Ann".to_string(), "Bo".to_string()]),
        duration: Some(TrackDuration { secs: 61, nanos: 5 }),
        album: Some("Record".to_string()),
        genre: None,
    });
    let c = get_local_entries(true, vec![song.clone()]);
    let e = &c.entries()[1];
    assert_eq!(e.name(), "Song");
    assert_eq!(e.album(), "Record");
    assert_eq!(e.artists(), vec!["Ann".to_string(), "Bo".to_string()]);
    assert_eq!(e.duration(), TrackDuration { secs: 61, nanos: 5 });
    let plain = local_entries::ui::utils::get_local_entries(true, vec![song]);
    assert_eq!(names(&plain), vec!["..", "s.MP3"]);
    assert_eq!(plain.entries()[1].album(), "unknown");
}

#[test]
fn playable_extensions() {
    assert!(is_playable("a.mp3"));
    assert!(is_playable("B.FLAC"));
    assert!(is_playable("c.Mp3"));
    assert!(!is_playable("track.txt"));
    assert!(!is_playable("mp3"));
    assert!(!is_playable(".mp3"));
    assert!(!is_playable("a.mp4"));
}

#[test]
fn queue_from_middle_index() {
    let c = LocalEntries::new(vec![playable("/m/a.mp3"), playable("/m/b.mp3"), playable("/m/c.mp3")]);
    let q = c.to_user_queue(1);
    assert_eq!(q.currently_playing.map(|t| t.name), Some("b.mp3".to_string()));
    let queued: Vec<String> = q.queue.iter().map(|t| t.name.clone()).collect();
    assert_eq!(queued, vec!["c.mp3"]);
    assert!(q.queue[0].is_local);
    assert_eq!(q.queue[0].album, "unknown");
}

#[test]
fn queue_from_out_of_range_index() {
    let c = LocalEntries::new(vec![playable("/m/a.mp3"), playable("/m/b.mp3"), playable("/m/c.mp3")]);
    let q = c.to_user_queue(10);
    assert!(q.currently_playing.is_none());
    assert!(q.queue.is_empty());
}

#[test]
fn queue_drops_directories() {
    let c = LocalEntries::new(vec![dir(".."), dir("/m/d"), playable("/m/a.mp3")]);
    let q = c.to_user_queue(0);
    assert!(q.currently_playing.is_none());
    assert_eq!(q.queue.len(), 1);
    assert_eq!(q.queue[0].name, "a.mp3");
    assert!(dir("/m/d").try_to_playable_item().is_none());
}

#[test]
fn duration_round_trip() {
    let mut p = playable("/m/a.mp3");
    assert_eq!(p.duration(), TrackDuration::zero());
    let d = TrackDuration { secs: 200, nanos: 999_999_999 };
    p.set_duration(Some(d));
    assert_eq!(p.duration(), d);
    p.set_duration(Some(TrackDuration::zero()));
    assert_eq!(p.duration(), TrackDuration::zero());
    let mut d2 = dir("/m/x");
    d2.set_duration(Some(d));
    assert_eq!(d2.duration(), TrackDuration::zero());
}

#[test]
fn backfill_only_when_unknown() {
    let mut p = playable("/m/a.mp3");
    p.backfill_duration(Some(TrackDuration { secs: 3, nanos: 0 }));
    assert_eq!(p.duration(), TrackDuration { secs: 3, nanos: 0 });
    p.backfill_duration(Some(TrackDuration { secs: 9, nanos: 0 }));
    assert_eq!(p.duration(), TrackDuration { secs: 3, nanos: 0 });
}

#[test]
fn names_and_defaults() {
    assert_eq!(dir("..").name(), "..");
    assert_eq!(dir("/music/rock").name(), "rock");
    assert_eq!(playable("/music/a.mp3").name(), "a.mp3");
    assert_eq!(dir("/music/rock").album(), "unknown");
    assert!(dir("/music/rock").artists().is_empty());
    assert!(playable("/music/a.mp3").artists().is_empty());
}

#[test]
fn text_helpers() {
    assert_eq!(compare_text("abc", "abd"), Ordering::Less);
    assert_eq!(compare_text("ab", "abc"), Ordering::Less);
    assert_eq!(compare_text("b", "abc"), Ordering::Greater);
    assert_eq!(compare_text("é", "é"), Ordering::Equal);
    assert_eq!(compare_text("Z", "a"), Ordering::Less);
    assert!(text_eq_ignore_ascii_case("FLaC", "flac"));
    assert!(!text_eq_ignore_ascii_case("flac", "fla"));
}

#[test]
fn bidi_reorders_right_to_left_text() {
    assert_eq!(to_bidi_string("hello"), "hello");
    assert_eq!(to_bidi_string("\u{5d0}\u{5d1}"), "\u{5d1}\u{5d0}");
    assert_eq!(to_bidi_string(""), "");
}

#[test]
fn adjusting_highlighted_row() {
    let mut s = Some(7);
    adjust_list_state(&mut s, 3);
    assert_eq!(s, Some(2));
    let mut s = Some(4);
    adjust_table_state(&mut s, 0);
    assert_eq!(s, Some(0));
    let mut s = None;
    adjust_list_state(&mut s, 2);
    assert_eq!(s, Some(0));
    let mut s = None;
    adjust_list_state(&mut s, 0);
    assert_eq!(s, None);
    let mut s = Some(1);
    adjust_list_state(&mut s, 2);
    assert_eq!(s, Some(1));
}
