//! One-level directory scan: classifies the children of a directory and
//! builds the sorted listing.
use vstd::multiset::Multiset;
use vstd::prelude::*;

use crate::local::{
    entries_sorted, opt_text, opt_texts, sort_entries, views, EntryView, LocalEntries, LocalEntry,
    TrackDuration,
};
use crate::text::{eq_ignore_ascii_case, text_eq_ignore_ascii_case};

verus! {

/// What a child of a scanned directory is on disk.
#[derive(Clone, Copy, PartialEq, Eq, Debug, Structural)]
pub enum ChildKind {
    Directory,
    File,
    Other,
}

/// Metadata read from an audio file's tags; each field is absent when the
/// file does not carry it.
#[derive(Clone, Debug)]
pub struct TrackTags {
    pub title: Option<String>,
    pub artists: Option<Vec<String>>,
    pub duration: Option<TrackDuration>,
    pub album: Option<String>,
    pub genre: Option<String>,
}

/// One child of a scanned directory: its path, its file name, its kind,
/// and the tags read from it (none when they could not be read).
#[derive(Clone, Debug)]
pub struct DirChild {
    pub path: String,
    pub name: String,
    pub kind: ChildKind,
    pub tags: Option<TrackTags>,
}

/// What `std::path::Path::extension` gives for a file name: the text after
/// its last `.`, unless the name has no `.` or starts with its only one.
pub uninterp spec fn extension_of(name: Seq<char>) -> Option<Seq<char>>;

/// Relies on `std::path::Path::extension`, read back as text.
#[verifier::external_body]
fn path_extension(name: &str) -> (r: Option<String>)
    ensures
        opt_text(r) == extension_of(name@),
{
    std::path::Path::new(name).extension().map(|e| e.display().to_string())
}

/// A file is playable when its extension is `mp3` or `flac`, in any ASCII case.
pub open spec fn is_playable_name(name: Seq<char>) -> bool {
    match extension_of(name) {
        Some(ext) => eq_ignore_ascii_case(ext, "mp3"@) || eq_ignore_ascii_case(ext, "flac"@),
        None => false,
    }
}

pub fn is_playable(filename: &str) -> (r: bool)
    ensures
        r == is_playable_name(filename@),
{
    match path_extension(filename) {
        Some(ext) => text_eq_ignore_ascii_case(ext.as_str(), "mp3")
            || text_eq_ignore_ascii_case(ext.as_str(), "flac"),
        None => false,
    }
}

/// The entry that a child of a scanned directory becomes, if any; tags are
/// applied only when `with_tags` holds.
pub open spec fn child_entry(c: DirChild, with_tags: bool) -> Option<EntryView> {
    match c.kind {
        ChildKind::Directory => Some(EntryView::Directory { full_path: c.path@ }),
        ChildKind::File => if is_playable_name(c.name@) {
            match c.tags {
                Some(t) if with_tags => Some(
                    EntryView::Playable {
                        full_path: c.path@,
                        selected: false,
                        title: opt_text(t.title),
                        artists: opt_texts(t.artists),
                        duration: t.duration,
                        album: opt_text(t.album),
                        genre: opt_text(t.genre),
                    },
                ),
                _ => Some(
                    EntryView::Playable {
                        full_path: c.path@,
                        selected: false,
                        title: None,
                        artists: None,
                        duration: None,
                        album: None,
                        genre: None,
                    },
                ),
            }
        } else {
            None
        },
        ChildKind::Other => None,
    }
}

/// The entries that the children in `s` become, in order.
pub open spec fn scanned(s: Seq<DirChild>, with_tags: bool) -> Seq<EntryView>
    decreases s.len(),
{
    if s.len() == 0 {
        Seq::empty()
    } else {
        let rest = scanned(s.drop_last(), with_tags);
        match child_entry(s.last(), with_tags) {
            Some(e) => rest.push(e),
            None => rest,
        }
    }
}

/// The entry that stands for the parent directory.
pub open spec fn parent_marker() -> EntryView {
    EntryView::Directory { full_path: ".."@ }
}

/// The listing of a directory: the parent marker and the entries of its
/// children, as a multiset.
pub open spec fn listing(children: Seq<DirChild>, with_tags: bool) -> Multiset<EntryView> {
    seq![parent_marker()].add(scanned(children, with_tags)).to_multiset()
}

fn child_to_entry(c: DirChild, with_tags: bool) -> (r: Option<LocalEntry>)
    ensures
        match r {
            Some(e) => child_entry(c, with_tags) == Some(e@),
            None => child_entry(c, with_tags) is None,
        },
{
    match c.kind {
        ChildKind::Directory => Some(LocalEntry::Directory { full_path: c.path }),
        ChildKind::File => {
            if is_playable(c.name.as_str()) {
                match c.tags {
                    Some(t) if with_tags => Some(
                        LocalEntry::Playable {
                            full_path: c.path,
                            selected: false,
                            title: t.title,
                            artists: t.artists,
                            duration: t.duration,
                            album: t.album,
                            genre: t.genre,
                        },
                    ),
                    _ => Some(
                        LocalEntry::Playable {
                            full_path: c.path,
                            selected: false,
                            title: None,
                            artists: None,
                            duration: None,
                            album: None,
                            genre: None,
                        },
                    ),
                }
            } else {
                None
            }
        },
        ChildKind::Other => None,
    }
}

pub(crate) fn scan_children(is_dir: bool, children: Vec<DirChild>, with_tags: bool) -> (r: LocalEntries)
    ensures
        !is_dir ==> r@.len() == 0,
        is_dir ==> r@.to_multiset() == listing(children@, with_tags),
        is_dir ==> entries_sorted(r@),
{
    if !is_dir {
        return LocalEntries::new(Vec::new());
    }
    let ghost all = children@;
    let mut entries: Vec<LocalEntry> = vec![LocalEntry::Directory { full_path: "..".to_owned() }];
    assert(views(entries@) =~= seq![parent_marker()].add(scanned(all.subrange(0, 0), with_tags)));
    let mut children = children;
    let n = children.len();
    let mut k: usize = 0;
    while k < n
        invariant
            n == all.len(),
            k <= n,
            children@ == all.subrange(k as int, n as int),
            views(entries@) == seq![parent_marker()].add(scanned(all.subrange(0, k as int), with_tags)),
        decreases n - k,
    {
        let c = children.remove(0);
        proof {
            assert(c == all[k as int]);
            assert(all.subrange(0, k + 1).drop_last() =~= all.subrange(0, k as int));
            assert(children@ =~= all.subrange(k + 1, n as int));
        }
        let ghost prev = entries@;
        match child_to_entry(c, with_tags) {
            Some(e) => {
                entries.push(e);
                assert(views(entries@) =~= views(prev).push(e@));
            },
            None => {},
        }
        assert(views(entries@) =~= seq![parent_marker()].add(scanned(all.subrange(0, k + 1), with_tags)));
        k = k + 1;
    }
    assert(all.subrange(0, n as int) =~= all);
    sort_entries(&mut entries);
    LocalEntries::new(entries)
}

/// Builds the listing of a directory from what was found in it: empty when
/// the path is not a directory; otherwise the parent marker `..`, every
/// child directory, and every playable file with its tags, sorted.
pub fn get_local_entries(is_dir: bool, children: Vec<DirChild>) -> (r: LocalEntries)
    ensures
        !is_dir ==> r@.len() == 0,
        is_dir ==> r@.to_multiset() == listing(children@, true),
        is_dir ==> entries_sorted(r@),
{
    scan_children(is_dir, children, true)
}

} // verus!
