//! The in-memory file index: at most one entry for each path.

use crate::text::{chars_of, str_spells};
use vstd::prelude::*;

verus! {

/// A point in time: seconds and nanoseconds since the Unix epoch.
#[derive(Clone, Copy, Debug, PartialEq, Eq, Structural)]
pub struct Timestamp {
    pub secs: u64,
    pub nanos: u32,
}

/// One indexed file.
#[derive(Clone, Debug, PartialEq, Eq)]
pub struct FileEntry {
    pub path: String,
    pub file_name: String,
    pub extension: Option<String>,
    pub size_bytes: u64,
    pub modified: Timestamp,
}

/// What a `FileEntry` stands for.
pub struct EntryView {
    pub path: Seq<char>,
    pub file_name: Seq<char>,
    pub extension: Option<Seq<char>>,
    pub size_bytes: u64,
    pub modified: Timestamp,
}

impl View for FileEntry {
    type V = EntryView;

    open spec fn view(&self) -> EntryView {
        EntryView {
            path: self.path@,
            file_name: self.file_name@,
            extension: match self.extension {
                Some(e) => Some(e@),
                None => None,
            },
            size_bytes: self.size_bytes,
            modified: self.modified,
        }
    }
}

impl FileEntry {
    /// A copy of the entry.
    pub fn duplicate(&self) -> (r: FileEntry)
        ensures
            r@ == self@,
    {
        FileEntry {
            path: self.path.clone(),
            file_name: self.file_name.clone(),
            extension: match &self.extension {
                Some(e) => Some(e.clone()),
                None => None,
            },
            size_bytes: self.size_bytes,
            modified: self.modified,
        }
    }
}

/// The views of entries, in order.
pub open spec fn entries_view(entries: Seq<FileEntry>) -> Seq<EntryView> {
    Seq::new(entries.len(), |i: int| entries[i]@)
}

/// The position of the entry for `path`, where there is one.
pub open spec fn position(entries: Seq<EntryView>, path: Seq<char>) -> Option<int>
    decreases entries.len(),
{
    if entries.len() == 0 {
        None
    } else if entries.last().path == path {
        Some(entries.len() - 1)
    } else {
        position(entries.drop_last(), path)
    }
}

/// No two entries are for one path.
pub open spec fn distinct_paths(entries: Seq<EntryView>) -> bool {
    forall|i: int, j: int|
        0 <= i < j < entries.len() ==> (#[trigger] entries[i]).path != (#[trigger] entries[j]).path
}

/// The index with `entry` put in: in the place of the entry for its path
/// where there is one, else at the end.
pub open spec fn inserted(entries: Seq<EntryView>, entry: EntryView) -> Seq<EntryView> {
    match position(entries, entry.path) {
        Some(i) => entries.update(i, entry),
        None => entries.push(entry),
    }
}

/// The index without the entry for `path`.
pub open spec fn removed(entries: Seq<EntryView>, path: Seq<char>) -> Seq<EntryView> {
    match position(entries, path) {
        Some(i) => entries.remove(i),
        None => entries,
    }
}

/// The index holds an entry for `path`.
pub open spec fn has_path(entries: Seq<EntryView>, path: Seq<char>) -> bool {
    position(entries, path) is Some
}

/// The index holds exactly `entry` for its path.
pub open spec fn holds(entries: Seq<EntryView>, entry: EntryView) -> bool {
    match position(entries, entry.path) {
        Some(i) => entries[i] == entry,
        None => false,
    }
}

/// What `position` finds is an entry for the path, and finds none only
/// where no entry is for the path.
pub proof fn lemma_position(entries: Seq<EntryView>, path: Seq<char>)
    ensures
        match position(entries, path) {
            Some(i) => 0 <= i < entries.len() && entries[i].path == path,
            None => forall|k: int| 0 <= k < entries.len() ==> (#[trigger] entries[k]).path != path,
        },
    decreases entries.len(),
{
    if entries.len() > 0 && entries.last().path != path {
        lemma_position(entries.drop_last(), path);
        assert forall|k: int| 0 <= k < entries.len() && position(entries, path) is None implies (
        #[trigger] entries[k]).path != path by {
            if k < entries.len() - 1 {
                assert(entries.drop_last()[k] == entries[k]);
            }
        }
    }
}

/// In an index without repeated paths, the entry for a path stands where
/// `position` says.
pub proof fn lemma_position_unique(entries: Seq<EntryView>, path: Seq<char>, k: int)
    requires
        distinct_paths(entries),
        0 <= k < entries.len(),
        entries[k].path == path,
    ensures
        position(entries, path) == Some(k),
{
    lemma_position(entries, path);
}

/// Putting an entry in keeps the paths distinct.
pub proof fn lemma_inserted_distinct(entries: Seq<EntryView>, entry: EntryView)
    requires
        distinct_paths(entries),
    ensures
        distinct_paths(inserted(entries, entry)),
        holds(inserted(entries, entry), entry),
        inserted(entries, entry).len() == if has_path(entries, entry.path) {
            entries.len()
        } else {
            entries.len() + 1
        },
{
    lemma_position(entries, entry.path);
    let after = inserted(entries, entry);
    match position(entries, entry.path) {
        Some(i) => {
            assert forall|a: int, b: int| 0 <= a < b < after.len() implies (
            #[trigger] after[a]).path != (#[trigger] after[b]).path by {
                assert(after[a].path == entries[a].path);
                assert(after[b].path == entries[b].path);
            }
            lemma_position_unique(after, entry.path, i);
        },
        None => {
            assert forall|a: int, b: int| 0 <= a < b < after.len() implies (
            #[trigger] after[a]).path != (#[trigger] after[b]).path by {
                if b < entries.len() {
                    assert(after[a] == entries[a]);
                    assert(after[b] == entries[b]);
                } else {
                    assert(after[a] == entries[a]);
                }
            }
            lemma_position_unique(after, entry.path, entries.len() as int);
        },
    }
}

/// Putting in an entry that the index holds changes nothing: indexing a
/// file again that has not changed leaves the index as it was.
pub proof fn lemma_insert_held(entries: Seq<EntryView>, entry: EntryView)
    requires
        holds(entries, entry),
    ensures
        inserted(entries, entry) == entries,
{
    lemma_position(entries, entry.path);
    let i = position(entries, entry.path)->0;
    assert(entries.update(i, entry) =~= entries);
}

/// Putting an entry in twice is putting it in once.
pub proof fn lemma_insert_idempotent(entries: Seq<EntryView>, entry: EntryView)
    requires
        distinct_paths(entries),
    ensures
        inserted(inserted(entries, entry), entry) == inserted(entries, entry),
{
    lemma_inserted_distinct(entries, entry);
    lemma_insert_held(inserted(entries, entry), entry);
}

/// Putting an entry in leaves what the index holds for other paths.
pub proof fn lemma_insert_keeps_others(entries: Seq<EntryView>, entry: EntryView, other: EntryView)
    requires
        distinct_paths(entries),
        holds(entries, other),
        other.path != entry.path,
    ensures
        holds(inserted(entries, entry), other),
{
    lemma_position(entries, entry.path);
    lemma_position(entries, other.path);
    lemma_inserted_distinct(entries, entry);
    let k = position(entries, other.path)->0;
    let after = inserted(entries, entry);
    assert(after[k] == other);
    lemma_position_unique(after, other.path, k);
}

/// After an entry is taken out, the index has none for its path, keeps its
/// paths distinct, and holds what it held for every other path.
pub proof fn lemma_removed(entries: Seq<EntryView>, path: Seq<char>)
    requires
        distinct_paths(entries),
    ensures
        !has_path(removed(entries, path), path),
        distinct_paths(removed(entries, path)),
        removed(entries, path).len() == if has_path(entries, path) {
            entries.len() - 1
        } else {
            entries.len() as int
        },
        forall|other: EntryView|
            holds(entries, other) && other.path != path ==> #[trigger] holds(
                removed(entries, path),
                other,
            ),
{
    lemma_position(entries, path);
    let after = removed(entries, path);
    match position(entries, path) {
        Some(i) => {
            assert forall|a: int, b: int| 0 <= a < b < after.len() implies (
            #[trigger] after[a]).path != (#[trigger] after[b]).path by {
                let a0 = if a < i {
                    a
                } else {
                    a + 1
                };
                let b0 = if b < i {
                    b
                } else {
                    b + 1
                };
                assert(after[a] == entries[a0]);
                assert(after[b] == entries[b0]);
            }
            lemma_position(after, path);
            if let Some(j) = position(after, path) {
                let j0 = if j < i {
                    j
                } else {
                    j + 1
                };
                assert(after[j] == entries[j0]);
                assert(entries[j0].path == entries[i].path);
                assert(false);
            }
            assert forall|other: EntryView|
                holds(entries, other) && other.path != path implies #[trigger] holds(
                after,
                other,
            ) by {
                lemma_position(entries, other.path);
                let k = position(entries, other.path)->0;
                let k1 = if k < i {
                    k
                } else {
                    k - 1
                };
                assert(after[k1] == entries[k]);
                lemma_position_unique(after, other.path, k1);
            }
        },
        None => {},
    }
}

/// Taking an entry out brings no path in.
pub proof fn lemma_removed_keeps_absent(entries: Seq<EntryView>, path: Seq<char>, other: Seq<char>)
    requires
        !has_path(entries, other),
    ensures
        !has_path(removed(entries, path), other),
{
    lemma_position(entries, path);
    lemma_position(entries, other);
    let after = removed(entries, path);
    lemma_position(after, other);
    if let Some(j) = position(after, other) {
        if let Some(i) = position(entries, path) {
            let j0 = if j < i {
                j
            } else {
                j + 1
            };
            assert(after[j] == entries[j0]);
        }
        assert(false);
    }
}

/// The file index. Nothing else writes to it, so that an entry is never
/// seen half written.
#[derive(Debug, PartialEq, Eq)]
pub struct FileIndex {
    entries: Vec<FileEntry>,
}

impl View for FileIndex {
    type V = Seq<EntryView>;

    closed spec fn view(&self) -> Seq<EntryView> {
        entries_view(self.entries@)
    }
}

impl FileIndex {
    /// The invariant of the index: no two entries are for one path.
    pub open spec fn wf(&self) -> bool {
        distinct_paths(self@)
    }

    /// An empty index.
    pub fn new() -> (r: FileIndex)
        ensures
            r.wf(),
            r@ == Seq::<EntryView>::empty(),
    {
        let r = FileIndex { entries: Vec::new() };
        assert(r@ =~= Seq::<EntryView>::empty());
        r
    }

    /// The number of entries.
    pub fn len(&self) -> (n: usize)
        ensures
            n == self@.len(),
    {
        self.entries.len()
    }

    /// The place of the entry for `path`.
    fn find(&self, path: &str) -> (r: Option<usize>)
        ensures
            match r {
                Some(i) => position(self@, path@) == Some(i as int) && i < self.entries.len(),
                None => position(self@, path@) is None,
            },
    {
        let ghost all = self@;
        let wanted = chars_of(path);
        let mut i: usize = self.entries.len();
        assert(all.take(all.len() as int) =~= all);
        while i > 0
            invariant
                i <= self.entries.len(),
                wanted@ == path@,
                all == self@,
                position(all, path@) == position(all.take(i as int), path@),
            decreases i,
        {
            i -= 1;
            proof {
                let front = all.take(i + 1);
                assert(front.last() == self.entries@[i as int]@);
                assert(front.drop_last() =~= all.take(i as int));
            }
            if str_spells(self.entries[i].path.as_str(), &wanted) {
                return Some(i);
            }
        }
        assert(all.take(0).len() == 0);
        None
    }

    /// Tells whether the index has an entry for `path`.
    pub fn contains(&self, path: &str) -> (r: bool)
        ensures
            r == has_path(self@, path@),
    {
        self.find(path).is_some()
    }

    /// The entry for `path`.
    pub fn get(&self, path: &str) -> (r: Option<&FileEntry>)
        ensures
            match r {
                Some(e) => e@.path == path@ && holds(self@, e@),
                None => !has_path(self@, path@),
            },
    {
        match self.find(path) {
            Some(i) => {
                proof {
                    lemma_position(self@, path@);
                    assert(self@[i as int] == self.entries@[i as int]@);
                }
                Some(&self.entries[i])
            },
            None => None,
        }
    }

    /// Puts an entry in, in the place of the entry for its path where there
    /// is one.
    pub fn insert(&mut self, entry: FileEntry)
        requires
            old(self).wf(),
        ensures
            final(self).wf(),
            final(self)@ == inserted(old(self)@, entry@),
    {
        proof {
            lemma_inserted_distinct(self@, entry@);
        }
        let ghost before = self@;
        match self.find(entry.path.as_str()) {
            Some(i) => {
                self.entries.set(i, entry);
                assert(self@ =~= before.update(i as int, entry@));
            },
            None => {
                self.entries.push(entry);
                assert(self@ =~= before.push(entry@));
            },
        }
    }

    /// Takes the entry for `path` out. Tells whether there was one.
    pub fn remove(&mut self, path: &str) -> (r: bool)
        requires
            old(self).wf(),
        ensures
            final(self).wf(),
            final(self)@ == removed(old(self)@, path@),
            r == has_path(old(self)@, path@),
            !has_path(final(self)@, path@),
    {
        proof {
            lemma_removed(self@, path@);
        }
        let ghost before = self@;
        match self.find(path) {
            Some(i) => {
                self.entries.remove(i);
                assert(self@ =~= before.remove(i as int));
                true
            },
            None => false,
        }
    }
}

} // verus!
