//! Entries of a local directory listing: directories and playable audio
//! files, their order, and a collection of them with single selection.
use std::cmp::Ordering;
use vstd::prelude::*;

use crate::text::{compare_text, lemma_lex_order, lex_cmp, lex_lt};

pub mod utils;

verus! {

/// Length of a track, as whole seconds and the nanoseconds beyond them.
#[derive(Clone, Copy, PartialEq, Eq, Debug, Structural)]
pub struct TrackDuration {
    pub secs: u64,
    pub nanos: u32,
}

impl TrackDuration {
    pub open spec fn zero_spec() -> TrackDuration {
        TrackDuration { secs: 0, nanos: 0 }
    }

    /// The empty duration.
    pub fn zero() -> (r: TrackDuration)
        ensures
            r == TrackDuration::zero_spec(),
    {
        TrackDuration { secs: 0, nanos: 0 }
    }

    pub fn is_zero(&self) -> (r: bool)
        ensures
            r == (*self == TrackDuration::zero_spec()),
    {
        self.secs == 0 && self.nanos == 0
    }
}

/// One entry of a directory listing.
#[derive(Clone, Debug)]
pub enum LocalEntry {
    Directory { full_path: String },
    Playable {
        full_path: String,
        selected: bool,
        title: Option<String>,
        artists: Option<Vec<String>>,
        duration: Option<TrackDuration>,
        album: Option<String>,
        genre: Option<String>,
    },
}

/// The mathematical value of a [`LocalEntry`]: texts become character sequences.
pub enum EntryView {
    Directory { full_path: Seq<char> },
    Playable {
        full_path: Seq<char>,
        selected: bool,
        title: Option<Seq<char>>,
        artists: Option<Seq<Seq<char>>>,
        duration: Option<TrackDuration>,
        album: Option<Seq<char>>,
        genre: Option<Seq<char>>,
    },
}

pub open spec fn opt_text(o: Option<String>) -> Option<Seq<char>> {
    match o {
        Some(s) => Some(s@),
        None => None,
    }
}

pub open spec fn opt_texts(o: Option<Vec<String>>) -> Option<Seq<Seq<char>>> {
    match o {
        Some(v) => Some(v.deep_view()),
        None => None,
    }
}

/// What `std::path::Path::file_name` gives for a path: its last normal
/// component, or nothing when the path ends in `..` or has no component.
pub uninterp spec fn file_name_of(path: Seq<char>) -> Option<Seq<char>>;

/// Relies on `std::path::Path::file_name`, read back as text.
#[verifier::external_body]
fn path_file_name(path: &str) -> (r: Option<String>)
    ensures
        opt_text(r) == file_name_of(path@),
{
    std::path::Path::new(path).file_name().map(|n| n.display().to_string())
}

/// The file-name component of a path, or the whole path when it has none.
pub open spec fn file_name_or_path(path: Seq<char>) -> Seq<char> {
    match file_name_of(path) {
        Some(n) => n,
        None => path,
    }
}

fn file_name_text(path: &String) -> (r: String)
    ensures
        r@ == file_name_or_path(path@),
{
    match path_file_name(path.as_str()) {
        Some(n) => n,
        None => path.clone(),
    }
}

impl EntryView {
    pub open spec fn full_path(self) -> Seq<char> {
        match self {
            EntryView::Directory { full_path } => full_path,
            EntryView::Playable { full_path, .. } => full_path,
        }
    }

    /// 0 for a directory, 1 for a playable file: directories come first.
    pub open spec fn rank(self) -> int {
        match self {
            EntryView::Directory { .. } => 0,
            EntryView::Playable { .. } => 1,
        }
    }

    pub open spec fn file_name(self) -> Seq<char> {
        file_name_or_path(self.full_path())
    }

    pub open spec fn name(self) -> Seq<char> {
        match self {
            EntryView::Playable { title: Some(t), .. } => t,
            _ => self.file_name(),
        }
    }

    pub open spec fn album(self) -> Seq<char> {
        match self {
            EntryView::Playable { album: Some(a), .. } => a,
            _ => "unknown"@,
        }
    }

    pub open spec fn artists(self) -> Seq<Seq<char>> {
        match self {
            EntryView::Playable { artists: Some(a), .. } => a,
            _ => Seq::empty(),
        }
    }

    pub open spec fn duration(self) -> TrackDuration {
        match self {
            EntryView::Playable { duration: Some(d), .. } => d,
            _ => TrackDuration::zero_spec(),
        }
    }

    pub open spec fn selected(self) -> bool {
        match self {
            EntryView::Playable { selected, .. } => selected,
            _ => false,
        }
    }

    /// The entry with its selection flag set to `value`; a directory is unchanged.
    pub open spec fn with_selected(self, value: bool) -> EntryView {
        match self {
            EntryView::Directory { .. } => self,
            EntryView::Playable { full_path, title, artists, duration, album, genre, .. } =>
                EntryView::Playable { full_path, selected: value, title, artists, duration, album, genre },
        }
    }

    /// The entry with its stored duration replaced; a directory is unchanged.
    pub open spec fn with_duration(self, d: Option<TrackDuration>) -> EntryView {
        match self {
            EntryView::Directory { .. } => self,
            EntryView::Playable { full_path, selected, title, artists, album, genre, .. } =>
                EntryView::Playable { full_path, selected, title, artists, duration: d, album, genre },
        }
    }

    /// Directories before playable files; within a kind, by file name.
    pub open spec fn order(self, other: EntryView) -> Ordering {
        if self.rank() < other.rank() {
            Ordering::Less
        } else if self.rank() > other.rank() {
            Ordering::Greater
        } else {
            lex_cmp(self.file_name(), other.file_name())
        }
    }

    /// Same kind and same file name.
    pub open spec fn same_place(self, other: EntryView) -> bool {
        self.rank() == other.rank() && self.file_name() == other.file_name()
    }
}

impl View for LocalEntry {
    type V = EntryView;

    open spec fn view(&self) -> EntryView {
        match self {
            LocalEntry::Directory { full_path } => EntryView::Directory { full_path: full_path@ },
            LocalEntry::Playable { full_path, selected, title, artists, duration, album, genre } =>
                EntryView::Playable {
                full_path: full_path@,
                selected: *selected,
                title: opt_text(*title),
                artists: opt_texts(*artists),
                duration: *duration,
                album: opt_text(*album),
                genre: opt_text(*genre),
            },
        }
    }
}

/// A directory never counts as selected, and selecting it changes nothing.
pub proof fn lemma_directory_never_selected(e: EntryView, value: bool)
    requires
        e is Directory,
    ensures
        !e.selected(),
        e.with_selected(value) == e,
        !e.with_selected(value).selected(),
{
}

/// Storing a duration on a playable entry and reading it back gives that duration.
pub proof fn lemma_duration_round_trip(e: EntryView, d: TrackDuration)
    requires
        e is Playable,
    ensures
        e.with_duration(Some(d)).duration() == d,
        e.with_duration(None).duration() == TrackDuration::zero_spec(),
{
}

/// The entry order is a strict total order over kinds and file names:
/// every directory precedes every playable file, entries of one kind compare
/// as their file names do, and the order is irreflexive, antisymmetric,
/// total up to `same_place`, and transitive.
pub proof fn lemma_entry_order(a: EntryView, b: EntryView, c: EntryView)
    ensures
        a is Directory && b is Playable ==> a.order(b) == Ordering::Less,
        a.rank() == b.rank() ==> a.order(b) == lex_cmp(a.file_name(), b.file_name()),
        a.order(a) == Ordering::Equal,
        a.order(b) == Ordering::Equal <==> a.same_place(b),
        a.order(b) == Ordering::Less <==> b.order(a) == Ordering::Greater,
        a.order(b) == Ordering::Less && b.order(c) == Ordering::Less ==> a.order(c) == Ordering::Less,
        a.order(b) != Ordering::Greater && b.order(c) != Ordering::Greater ==> a.order(c) != Ordering::Greater,
{
    lemma_lex_order(a.file_name(), b.file_name(), c.file_name());
    lemma_lex_order(b.file_name(), a.file_name(), c.file_name());
    lemma_lex_order(a.file_name(), a.file_name(), a.file_name());
    lemma_lex_order(b.file_name(), c.file_name(), a.file_name());
}

impl LocalEntry {
    /// Display name: the title tag of a playable file, else the file-name component.
    pub fn name(&self) -> (r: String)
        ensures
            r@ == self@.name(),
    {
        match self {
            LocalEntry::Directory { full_path } => file_name_text(full_path),
            LocalEntry::Playable { full_path, title, .. } => match title {
                Some(t) => t.clone(),
                None => file_name_text(full_path),
            },
        }
    }

    fn file_name(&self) -> (r: String)
        ensures
            r@ == self@.file_name(),
    {
        match self {
            LocalEntry::Directory { full_path } => file_name_text(full_path),
            LocalEntry::Playable { full_path, .. } => file_name_text(full_path),
        }
    }

    pub fn full_path(&self) -> (r: &String)
        ensures
            r@ == self@.full_path(),
    {
        match self {
            LocalEntry::Directory { full_path } => full_path,
            LocalEntry::Playable { full_path, .. } => full_path,
        }
    }

    pub fn album(&self) -> (r: String)
        ensures
            r@ == self@.album(),
    {
        match self {
            LocalEntry::Directory { .. } => "unknown".to_owned(),
            LocalEntry::Playable { album, .. } => match album {
                Some(a) => a.clone(),
                None => "unknown".to_owned(),
            },
        }
    }

    pub fn artists(&self) -> (r: Vec<String>)
        ensures
            r.deep_view() == self@.artists(),
    {
        match self {
            LocalEntry::Directory { .. } => Vec::new(),
            LocalEntry::Playable { artists, .. } => match artists {
                Some(a) => copy_texts(a),
                None => Vec::new(),
            },
        }
    }

    pub fn duration(&self) -> (r: TrackDuration)
        ensures
            r == self@.duration(),
    {
        match self {
            LocalEntry::Directory { .. } => TrackDuration::zero(),
            LocalEntry::Playable { duration, .. } => match duration {
                Some(d) => *d,
                None => TrackDuration::zero(),
            },
        }
    }

    pub fn set_duration(&mut self, new_duration: Option<TrackDuration>)
        ensures
            final(self)@ == old(self)@.with_duration(new_duration),
    {
        if let LocalEntry::Playable { duration, .. } = self {
            *duration = new_duration;
        }
    }

    /// Keeps a duration reported by the decoder when the entry knows none yet.
    pub fn backfill_duration(&mut self, reported: Option<TrackDuration>)
        ensures
            old(self)@.duration() == TrackDuration::zero_spec() ==> final(self)@ == old(self)@.with_duration(reported),
            old(self)@.duration() != TrackDuration::zero_spec() ==> final(self)@ == old(self)@,
    {
        if self.duration().is_zero() {
            self.set_duration(reported);
        }
    }

    pub fn selected(&self) -> (r: bool)
        ensures
            r == self@.selected(),
    {
        match self {
            LocalEntry::Directory { .. } => false,
            LocalEntry::Playable { selected, .. } => *selected,
        }
    }

    pub fn set_selected(&mut self, value: bool)
        ensures
            final(self)@ == old(self)@.with_selected(value),
    {
        match self {
            LocalEntry::Directory { .. } => {},
            LocalEntry::Playable { selected, .. } => *selected = value,
        }
    }

    /// Compares two entries: directories first, then by file name.
    pub fn cmp(&self, other: &Self) -> (r: Ordering)
        ensures
            r == self@.order(other@),
    {
        match (self, other) {
            (LocalEntry::Directory { .. }, LocalEntry::Playable { .. }) => Ordering::Less,
            (LocalEntry::Playable { .. }, LocalEntry::Directory { .. }) => Ordering::Greater,
            _ => {
                let a = self.file_name();
                let b = other.file_name();
                compare_text(a.as_str(), b.as_str())
            },
        }
    }
}

fn copy_texts(v: &Vec<String>) -> (r: Vec<String>)
    ensures
        r.deep_view() == v.deep_view(),
{
    let mut r: Vec<String> = Vec::new();
    let mut i: usize = 0;
    while i < v.len()
        invariant
            i <= v.len(),
            r.deep_view() == v.deep_view().subrange(0, i as int),
        decreases v.len() - i,
    {
        let s = v[i].clone();
        proof {
            assert(r.deep_view().push(s@) =~= v.deep_view().subrange(0, i + 1));
        }
        r.push(s);
        assert(r.deep_view() =~= v.deep_view().subrange(0, i + 1));
        i = i + 1;
    }
    assert(v.deep_view().subrange(0, i as int) =~= v.deep_view());
    r
}

impl PartialEq for LocalEntry {
    fn eq(&self, other: &Self) -> (r: bool) {
        proof {
            lemma_entry_order(self@, other@, other@);
        }
        match self.cmp(other) {
            Ordering::Equal => true,
            _ => false,
        }
    }
}

impl vstd::std_specs::cmp::PartialEqSpecImpl for LocalEntry {
    open spec fn obeys_eq_spec() -> bool {
        true
    }

    open spec fn eq_spec(&self, other: &LocalEntry) -> bool {
        self@.same_place(other@)
    }
}

impl Eq for LocalEntry {

}

impl PartialOrd for LocalEntry {
    fn partial_cmp(&self, other: &Self) -> (r: Option<Ordering>) {
        Some(self.cmp(other))
    }
}

impl vstd::std_specs::cmp::PartialOrdSpecImpl for LocalEntry {
    open spec fn obeys_partial_cmp_spec() -> bool {
        true
    }

    open spec fn partial_cmp_spec(&self, other: &LocalEntry) -> Option<Ordering> {
        Some(self@.order(other@))
    }
}

/// Entries of a directory listing kept sorted by entry order: no later
/// entry comes strictly before an earlier one.
pub open spec fn entries_sorted(s: Seq<EntryView>) -> bool {
    forall|i: int, j: int| 0 <= i < j < s.len() ==> s[i].order(s[j]) != Ordering::Greater
}

pub open spec fn views(s: Seq<LocalEntry>) -> Seq<EntryView> {
    s.map_values(|e: LocalEntry| e@)
}

/// Sorts entries by entry order (insertion sort; equal entries keep their
/// relative order). An already sorted sequence is left exactly as it is.
pub fn sort_entries(v: &mut Vec<LocalEntry>)
    ensures
        views(final(v)@).to_multiset() == views(old(v)@).to_multiset(),
        entries_sorted(views(final(v)@)),
        entries_sorted(views(old(v)@)) ==> final(v)@ == old(v)@,
{
    broadcast use vstd::multiset::group_multiset_axioms;

    let ghost start = v@;
    let n = v.len();
    let mut i: usize = 0;
    while i < n
        invariant
            n == v.len(),
            i <= n,
            views(v@).to_multiset() == views(start).to_multiset(),
            entries_sorted(views(v@).subrange(0, i as int)),
            entries_sorted(views(start)) ==> v@ == start,
        decreases n - i,
    {
        let mut j: usize = 0;
        while j < i
            invariant
                n == v.len(),
                i < n,
                j <= i,
                forall|k: int| 0 <= k < j ==> v@[k]@.order(v@[i as int]@) != Ordering::Greater,
            ensures
                j <= i,
                j < i ==> v@[j as int]@.order(v@[i as int]@) == Ordering::Greater,
                forall|k: int| 0 <= k < j ==> v@[k]@.order(v@[i as int]@) != Ordering::Greater,
            decreases i - j,
        {
            match v[j].cmp(&v[i]) {
                Ordering::Greater => break,
                _ => {},
            }
            j = j + 1;
        }
        let ghost before = v@;
        proof {
            if entries_sorted(views(start)) && j < i {
                assert(views(before)[j as int] == before[j as int]@);
                assert(views(before)[i as int] == before[i as int]@);
            }
        }
        if j < i {
            let e = v.remove(i);
            v.insert(j, e);
            proof {
                let vb = views(before);
                let vr = views(before.remove(i as int));
                assert(vr =~= vb.remove(i as int));
                assert(views(v@) =~= vr.insert(j as int, e@));
                assert(vb[i as int] == e@);
                assert(vb.contains(e@));
                vstd::seq_lib::to_multiset_contains(vb, e@);
                vstd::seq_lib::to_multiset_remove(vb, i as int);
                vstd::seq_lib::to_multiset_insert(vr, j as int, e@);
                assert(vb.to_multiset().remove(e@).insert(e@) =~= vb.to_multiset());
                assert(views(v@).to_multiset() == vr.to_multiset().insert(e@));
                assert(vr.to_multiset() == vb.to_multiset().remove(e@));
                assert forall|a: int, b: int| 0 <= a < b < i + 1 implies #[trigger] views(v@)[a].order(
                    #[trigger] views(v@)[b],
                ) != Ordering::Greater by {
                    let x = views(v@)[a];
                    let y = views(v@)[b];
                    if a < j && b < j {
                        assert(vb.subrange(0, i as int)[a] == x);
                        assert(vb.subrange(0, i as int)[b] == y);
                    } else if a < j && b == j {
                        assert(x == vb[a]);
                    } else if a < j {
                        assert(x == vb[a]);
                        assert(y == vb[b - 1]);
                        assert(vb.subrange(0, i as int)[a] == x);
                        assert(vb.subrange(0, i as int)[b - 1] == y);
                    } else if a == j {
                        assert(y == vb[b - 1]);
                        assert(vb[j as int].order(e@) == Ordering::Greater);
                        if b - 1 > j {
                            assert(vb.subrange(0, i as int)[j as int] == vb[j as int]);
                            assert(vb.subrange(0, i as int)[b - 1] == y);
                        }
                        lemma_entry_order(e@, vb[j as int], y);
                        lemma_entry_order(vb[j as int], y, e@);
                    } else {
                        assert(x == vb[a - 1]);
                        assert(y == vb[b - 1]);
                        assert(vb.subrange(0, i as int)[a - 1] == x);
                        assert(vb.subrange(0, i as int)[b - 1] == y);
                    }
                };
            }
        } else {
            proof {
                let vb = views(v@);
                assert forall|a: int, b: int| 0 <= a < b < i + 1 implies #[trigger] vb.subrange(0, i + 1)[a].order(
                    #[trigger] vb.subrange(0, i + 1)[b],
                ) != Ordering::Greater by {
                    if b < i {
                        assert(vb.subrange(0, i as int)[a] == vb[a]);
                        assert(vb.subrange(0, i as int)[b] == vb[b]);
                    } else {
                        assert(vb[a] == v@[a]@);
                    }
                };
            }
        }
        i = i + 1;
    }
    assert(views(v@).subrange(0, n as int) =~= views(v@));
}

/// A local track shaped for a playback queue.
#[derive(Clone, Debug)]
pub struct LocalTrack {
    pub name: String,
    pub album: String,
    pub artists: Vec<String>,
    pub duration: TrackDuration,
    /// Always true: the track is a file on this machine, not a catalog item.
    pub is_local: bool,
}

pub struct TrackView {
    pub name: Seq<char>,
    pub album: Seq<char>,
    pub artists: Seq<Seq<char>>,
    pub duration: TrackDuration,
    pub is_local: bool,
}

impl View for LocalTrack {
    type V = TrackView;

    open spec fn view(&self) -> TrackView {
        TrackView {
            name: self.name@,
            album: self.album@,
            artists: self.artists.deep_view(),
            duration: self.duration,
            is_local: self.is_local,
        }
    }
}

pub open spec fn opt_track(o: Option<LocalTrack>) -> Option<TrackView> {
    match o {
        Some(t) => Some(t@),
        None => None,
    }
}

pub open spec fn tracks(s: Seq<LocalTrack>) -> Seq<TrackView> {
    s.map_values(|t: LocalTrack| t@)
}

impl EntryView {
    /// The queue item of a playable entry; a directory has none.
    pub open spec fn track(self) -> Option<TrackView> {
        match self {
            EntryView::Directory { .. } => None,
            EntryView::Playable { .. } => Some(
                TrackView {
                    name: self.name(),
                    album: self.album(),
                    artists: self.artists(),
                    duration: self.duration(),
                    is_local: true,
                },
            ),
        }
    }
}

/// The queue items of the playable entries of `s`, in order.
pub open spec fn tracks_of(s: Seq<EntryView>) -> Seq<TrackView>
    decreases s.len(),
{
    if s.len() == 0 {
        Seq::empty()
    } else {
        let rest = tracks_of(s.drop_last());
        match s.last().track() {
            Some(t) => rest.push(t),
            None => rest,
        }
    }
}

/// The track now playing and the tracks queued after it.
#[derive(Clone, Debug)]
pub struct UserQueue {
    pub currently_playing: Option<LocalTrack>,
    pub queue: Vec<LocalTrack>,
}

impl LocalEntry {
    /// Converts a playable entry into a queue item; a directory gives none.
    pub fn try_to_playable_item(&self) -> (r: Option<LocalTrack>)
        ensures
            opt_track(r) == self@.track(),
    {
        match self {
            LocalEntry::Directory { .. } => None,
            LocalEntry::Playable { .. } => Some(
                LocalTrack {
                    name: self.name(),
                    album: self.album(),
                    artists: self.artists(),
                    duration: self.duration(),
                    is_local: true,
                },
            ),
        }
    }
}

/// An ordered listing of entries with at most one selected entry after `select`.
#[derive(Clone, Debug)]
pub struct LocalEntries {
    entries: Vec<LocalEntry>,
}

impl View for LocalEntries {
    type V = Seq<EntryView>;

    closed spec fn view(&self) -> Seq<EntryView> {
        views(self.entries@)
    }
}

/// `s` with entry `index` selected and every other entry unselected.
pub open spec fn select_spec(s: Seq<EntryView>, index: int) -> Seq<EntryView> {
    Seq::new(s.len(), |i: int| s[i].with_selected(i == index))
}

/// `s` with every entry unselected.
pub open spec fn unselect_spec(s: Seq<EntryView>) -> Seq<EntryView> {
    Seq::new(s.len(), |i: int| s[i].with_selected(false))
}

/// Selecting a playable entry in range leaves exactly that entry selected;
/// selecting out of range leaves none selected.
pub proof fn lemma_select_single(s: Seq<EntryView>, index: int)
    ensures
        0 <= index < s.len() && s[index] is Playable ==> forall|i: int|
            0 <= i < s.len() ==> (#[trigger] select_spec(s, index)[i].selected() <==> i == index),
        !(0 <= index < s.len()) ==> forall|i: int|
            0 <= i < s.len() ==> !(#[trigger] select_spec(s, index)[i].selected()),
{
}

/// After unselecting all, no entry is selected.
pub proof fn lemma_unselect_none(s: Seq<EntryView>)
    ensures
        forall|i: int| 0 <= i < s.len() ==> !(#[trigger] unselect_spec(s)[i].selected()),
{
}

impl LocalEntries {
    pub fn new(entries: Vec<LocalEntry>) -> (r: Self)
        ensures
            r@ == views(entries@),
    {
        LocalEntries { entries }
    }

    /// Selects entry `index` and unselects all others.
    pub fn select(&mut self, index: usize)
        ensures
            final(self)@ == select_spec(old(self)@, index as int),
    {
        let ghost before = self@;
        let n = self.entries.len();
        let mut i: usize = 0;
        while i < n
            invariant
                n == self.entries.len(),
                n == before.len(),
                i <= n,
                forall|k: int| 0 <= k < i ==> #[trigger] views(self.entries@)[k] == before[k].with_selected(k == index),
                forall|k: int| i <= k < n ==> #[trigger] views(self.entries@)[k] == before[k],
            decreases n - i,
        {
            let ghost prev = self.entries@;
            self.entries[i].set_selected(i == index);
            proof {
                assert(views(self.entries@) =~= views(prev).update(i as int, views(prev)[i as int].with_selected(i == index)));
            }
            i = i + 1;
        }
        assert(self@ =~= select_spec(before, index as int));
    }

    pub fn unselect_all(&mut self)
        ensures
            final(self)@ == unselect_spec(old(self)@),
    {
        let ghost before = self@;
        let n = self.entries.len();
        let mut i: usize = 0;
        while i < n
            invariant
                n == self.entries.len(),
                n == before.len(),
                i <= n,
                forall|k: int| 0 <= k < i ==> #[trigger] views(self.entries@)[k] == before[k].with_selected(false),
                forall|k: int| i <= k < n ==> #[trigger] views(self.entries@)[k] == before[k],
            decreases n - i,
        {
            let ghost prev = self.entries@;
            self.entries[i].set_selected(false);
            proof {
                assert(views(self.entries@) =~= views(prev).update(i as int, views(prev)[i as int].with_selected(false)));
            }
            i = i + 1;
        }
        assert(self@ =~= unselect_spec(before));
    }

    pub fn entries(&self) -> (r: &Vec<LocalEntry>)
        ensures
            views(r@) == self@,
    {
        &self.entries
    }

    pub fn entries_mut(&mut self) -> (r: &mut Vec<LocalEntry>)
        ensures
            views(r@) == old(self)@,
            final(self)@ == views(final(r)@),
    {
        &mut self.entries
    }

    /// Builds the queue that starts at entry `current_index`: that entry as
    /// the one playing, then the playable entries after it.
    pub fn to_user_queue(&self, current_index: usize) -> (r: UserQueue)
        ensures
            current_index < self@.len() ==> opt_track(r.currently_playing) == self@[current_index as int].track(),
            current_index < self@.len() ==> tracks(r.queue@) == tracks_of(
                self@.subrange(current_index + 1, self@.len() as int),
            ),
            current_index >= self@.len() ==> r.currently_playing is None && r.queue@.len() == 0,
    {
        let n = self.entries.len();
        if current_index >= n {
            return UserQueue { currently_playing: None, queue: Vec::new() };
        }
        let currently_playing = self.entries[current_index].try_to_playable_item();
        let mut queue: Vec<LocalTrack> = Vec::new();
        let mut i: usize = current_index + 1;
        assert(self@.subrange(current_index + 1, i as int) =~= Seq::<EntryView>::empty());
        while i < n
            invariant
                n == self.entries.len(),
                current_index < n,
                current_index + 1 <= i <= n,
                tracks(queue@) == tracks_of(self@.subrange(current_index + 1, i as int)),
            decreases n - i,
        {
            let item = self.entries[i].try_to_playable_item();
            proof {
                let sub = self@.subrange(current_index + 1, i + 1);
                assert(sub.drop_last() =~= self@.subrange(current_index + 1, i as int));
                assert(sub.last() == self.entries@[i as int]@);
            }
            match item {
                Some(t) => {
                    queue.push(t);
                },
                None => {},
            }
            assert(tracks(queue@) =~= tracks_of(self@.subrange(current_index + 1, i + 1)));
            i = i + 1;
        }
        UserQueue { currently_playing, queue }
    }
}

} // verus!
