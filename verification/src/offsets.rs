//! Where the next read of each watched file starts.

use vstd::prelude::*;
use crate::text::same_text;

verus! {

/// A file of the watched directory, known by its path, and the number of
/// its bytes that were consumed so far.
pub struct WatchedFile {
    pub path: String,
    pub last_offset: u64,
}

/// The offsets of the watched files. Each path is held at most once; a path
/// that is not held counts as never read.
pub struct OffsetStore {
    files: Vec<WatchedFile>,
}

/// Entry `i` is the entry of `path`.
pub open spec fn is_entry_of(files: Seq<WatchedFile>, i: int, path: Seq<char>) -> bool {
    0 <= i < files.len() && files[i].path@ == path
}

/// No path is held twice.
pub open spec fn distinct_paths(files: Seq<WatchedFile>) -> bool {
    forall|i: int, j: int| 0 <= i < j < files.len() ==> files[i].path@ != files[j].path@
}

/// The offsets as a map from path to offset.
pub open spec fn offsets_of(files: Seq<WatchedFile>) -> Map<Seq<char>, u64> {
    Map::new(
        |path: Seq<char>| exists|i: int| is_entry_of(files, i, path),
        |path: Seq<char>| files[choose|i: int| is_entry_of(files, i, path)].last_offset,
    )
}

/// The offset that a map of offsets gives for a path: the recorded one, or 0
/// for a path that it does not hold.
pub open spec fn recorded_offset(offsets: Map<Seq<char>, u64>, path: Seq<char>) -> u64 {
    if offsets.dom().contains(path) {
        offsets[path]
    } else {
        0
    }
}

/// What the map says of a path that entry `i` holds.
pub proof fn lemma_offset_of_entry(files: Seq<WatchedFile>, i: int)
    requires
        distinct_paths(files),
        0 <= i < files.len(),
    ensures
        offsets_of(files).dom().contains(files[i].path@),
        offsets_of(files)[files[i].path@] == files[i].last_offset,
{
    let path = files[i].path@;
    assert(is_entry_of(files, i, path));
    let chosen = choose|k: int| is_entry_of(files, k, path);
    assert(chosen == i);
}

impl OffsetStore {
    #[verifier::type_invariant]
    spec fn distinct(&self) -> bool {
        distinct_paths(self.files@)
    }

    /// The store as a map from path to the offset recorded for it.
    pub closed spec fn view(&self) -> Map<Seq<char>, u64> {
        offsets_of(self.files@)
    }

    /// The offset at which the next read of `path` starts: the recorded one,
    /// or 0 for a file that was never read.
    pub open spec fn offset_of(&self, path: Seq<char>) -> u64 {
        recorded_offset(self@, path)
    }

    /// A store that knows no file.
    pub fn new() -> (store: OffsetStore)
        ensures
            store@ == Map::<Seq<char>, u64>::empty(),
    {
        let store = OffsetStore { files: Vec::new() };
        assert(store@ =~= Map::<Seq<char>, u64>::empty());
        store
    }

    /// The number of files with a recorded offset.
    pub fn len(&self) -> (n: usize)
        ensures
            n == self@.dom().len(),
            self@.dom().finite(),
    {
        proof {
            use_type_invariant(self);
            lemma_domain_size(self.files@);
        }
        self.files.len()
    }

    /// The position of the entry of `path`, if there is one.
    fn position(&self, path: &str) -> (found: Option<usize>)
        ensures
            match found {
                Some(i) => is_entry_of(self.files@, i as int, path@),
                None => forall|i: int| !is_entry_of(self.files@, i, path@),
            },
    {
        let mut i: usize = 0;
        while i < self.files.len()
            invariant
                i <= self.files@.len(),
                forall|k: int| 0 <= k < i ==> !is_entry_of(self.files@, k, path@),
            decreases self.files@.len() - i,
        {
            if same_text(self.files[i].path.as_str(), path) {
                return Some(i);
            }
            i += 1;
        }
        None
    }

    /// The offset recorded for `path`, if any.
    pub fn get(&self, path: &str) -> (offset: Option<u64>)
        ensures
            offset == (if self@.dom().contains(path@) {
                Some(self@[path@])
            } else {
                None
            }),
    {
        proof {
            use_type_invariant(self);
        }
        match self.position(path) {
            Some(i) => {
                proof {
                    lemma_offset_of_entry(self.files@, i as int);
                }
                Some(self.files[i].last_offset)
            },
            None => None,
        }
    }

    /// The offset at which the next read of `path` starts.
    pub fn offset(&self, path: &str) -> (offset: u64)
        ensures
            offset == self.offset_of(path@),
    {
        match self.get(path) {
            Some(offset) => offset,
            None => 0,
        }
    }

    /// Records `offset` for `path`, in place of what was recorded before.
    pub fn insert(&mut self, path: &str, offset: u64)
        ensures
            final(self)@ == old(self)@.insert(path@, offset),
    {
        proof {
            use_type_invariant(&*self);
        }
        let ghost before = self.files@;
        let entry = WatchedFile { path: path.to_string(), last_offset: offset };
        match self.position(path) {
            Some(i) => {
                let mut files: Vec<WatchedFile> = Vec::new();
                std::mem::swap(&mut self.files, &mut files);
                files.set(i, entry);
                proof {
                    let after = files@;
                    assert forall|k: int, p: Seq<char>| is_entry_of(after, k, p) == is_entry_of(
                        before,
                        k,
                        p,
                    ) by {}
                    lemma_offsets_after_update(before, after, i as int, path@, offset);
                }
                self.files = files;
            },
            None => {
                let mut files: Vec<WatchedFile> = Vec::new();
                std::mem::swap(&mut self.files, &mut files);
                files.push(entry);
                proof {
                    let after = files@;
                    assert forall|a: int, b: int| 0 <= a < b < after.len() implies after[a].path@
                        != after[b].path@ by {
                        if b == before.len() {
                            assert(!is_entry_of(before, a, path@));
                        }
                    }
                    lemma_offsets_after_push(before, after, path@, offset);
                }
                self.files = files;
            },
        }
    }

    /// Forgets `path`. Says whether an offset was recorded for it.
    pub fn remove(&mut self, path: &str) -> (known: bool)
        ensures
            known == old(self)@.dom().contains(path@),
            final(self)@ == old(self)@.remove(path@),
    {
        proof {
            use_type_invariant(&*self);
        }
        let ghost before = self.files@;
        match self.position(path) {
            Some(i) => {
                proof {
                    lemma_offset_of_entry(before, i as int);
                }
                let mut files: Vec<WatchedFile> = Vec::new();
                std::mem::swap(&mut self.files, &mut files);
                files.remove(i);
                proof {
                    lemma_offsets_after_remove(before, files@, i as int);
                }
                self.files = files;
                true
            },
            None => {
                assert(self@ =~= self@.remove(path@));
                false
            },
        }
    }
}

/// Replacing the entry of a path changes the map at that path alone.
proof fn lemma_offsets_after_update(
    before: Seq<WatchedFile>,
    after: Seq<WatchedFile>,
    i: int,
    path: Seq<char>,
    offset: u64,
)
    requires
        distinct_paths(before),
        is_entry_of(before, i, path),
        after.len() == before.len(),
        after[i].path@ == path,
        after[i].last_offset == offset,
        forall|k: int| 0 <= k < before.len() && k != i ==> after[k] == before[k],
    ensures
        distinct_paths(after),
        offsets_of(after) == offsets_of(before).insert(path, offset),
{
    assert forall|a: int, b: int| 0 <= a < b < after.len() implies after[a].path@
        != after[b].path@ by {
        assert(after[a].path@ == before[a].path@);
        assert(after[b].path@ == before[b].path@);
    }
    assert forall|p: Seq<char>| offsets_of(after).dom().contains(p) == offsets_of(
        before,
    ).insert(path, offset).dom().contains(p) by {
        if offsets_of(after).dom().contains(p) {
            let k = choose|k: int| is_entry_of(after, k, p);
            assert(is_entry_of(before, k, p));
        }
        if offsets_of(before).dom().contains(p) {
            let k = choose|k: int| is_entry_of(before, k, p);
            assert(is_entry_of(after, k, p));
        }
        if p == path {
            assert(is_entry_of(after, i, p));
        }
    }
    assert forall|p: Seq<char>| offsets_of(after).dom().contains(p) implies offsets_of(after)[p]
        == offsets_of(before).insert(path, offset)[p] by {
        let k = choose|k: int| is_entry_of(after, k, p);
        lemma_offset_of_entry(after, k);
        if p != path {
            assert(is_entry_of(before, k, p));
            lemma_offset_of_entry(before, k);
        } else {
            assert(k == i);
        }
    }
    assert(offsets_of(after) =~= offsets_of(before).insert(path, offset));
}

/// Adding an entry for a path that is not held adds that path to the map.
proof fn lemma_offsets_after_push(
    before: Seq<WatchedFile>,
    after: Seq<WatchedFile>,
    path: Seq<char>,
    offset: u64,
)
    requires
        distinct_paths(before),
        distinct_paths(after),
        after.len() == before.len() + 1,
        after[before.len() as int].path@ == path,
        after[before.len() as int].last_offset == offset,
        forall|k: int| 0 <= k < before.len() ==> after[k] == before[k],
    ensures
        offsets_of(after) == offsets_of(before).insert(path, offset),
{
    let last = before.len() as int;
    assert forall|p: Seq<char>| offsets_of(after).dom().contains(p) == offsets_of(
        before,
    ).insert(path, offset).dom().contains(p) by {
        if offsets_of(after).dom().contains(p) {
            let k = choose|k: int| is_entry_of(after, k, p);
            if k != last {
                assert(is_entry_of(before, k, p));
            }
        }
        if offsets_of(before).dom().contains(p) {
            let k = choose|k: int| is_entry_of(before, k, p);
            assert(is_entry_of(after, k, p));
        }
        if p == path {
            assert(is_entry_of(after, last, p));
        }
    }
    assert forall|p: Seq<char>| offsets_of(after).dom().contains(p) implies offsets_of(after)[p]
        == offsets_of(before).insert(path, offset)[p] by {
        let k = choose|k: int| is_entry_of(after, k, p);
        lemma_offset_of_entry(after, k);
        if k != last {
            assert(is_entry_of(before, k, p));
            lemma_offset_of_entry(before, k);
            assert(is_entry_of(after, last, path));
        }
    }
    assert(offsets_of(after) =~= offsets_of(before).insert(path, offset));
}

/// Taking an entry out takes its path out of the map.
proof fn lemma_offsets_after_remove(before: Seq<WatchedFile>, after: Seq<WatchedFile>, i: int)
    requires
        distinct_paths(before),
        0 <= i < before.len(),
        after == before.remove(i),
    ensures
        distinct_paths(after),
        offsets_of(after) == offsets_of(before).remove(before[i].path@),
{
    let path = before[i].path@;
    let shift = |k: int| if k < i { k } else { k + 1 };
    assert forall|k: int| 0 <= k < after.len() implies after[k] == before[shift(k)] by {}
    assert forall|a: int, b: int| 0 <= a < b < after.len() implies after[a].path@
        != after[b].path@ by {
        assert(after[a] == before[shift(a)]);
        assert(after[b] == before[shift(b)]);
    }
    assert forall|p: Seq<char>| offsets_of(after).dom().contains(p) == offsets_of(before).remove(
        path,
    ).dom().contains(p) by {
        if offsets_of(after).dom().contains(p) {
            let k = choose|k: int| is_entry_of(after, k, p);
            assert(after[k] == before[shift(k)]);
            assert(is_entry_of(before, shift(k), p));
            assert(shift(k) != i);
        }
        if offsets_of(before).dom().contains(p) && p != path {
            let k = choose|k: int| is_entry_of(before, k, p);
            let back = if k < i { k } else { k - 1 };
            assert(after[back] == before[shift(back)]);
            assert(is_entry_of(after, back, p));
        }
    }
    assert forall|p: Seq<char>| offsets_of(after).dom().contains(p) implies offsets_of(after)[p]
        == offsets_of(before).remove(path)[p] by {
        let k = choose|k: int| is_entry_of(after, k, p);
        lemma_offset_of_entry(after, k);
        assert(after[k] == before[shift(k)]);
        assert(is_entry_of(before, shift(k), p));
        lemma_offset_of_entry(before, shift(k));
    }
    assert(offsets_of(after) =~= offsets_of(before).remove(path));
}

/// The map has as many paths as there are entries.
proof fn lemma_domain_size(files: Seq<WatchedFile>)
    requires
        distinct_paths(files),
    ensures
        offsets_of(files).dom().finite(),
        offsets_of(files).dom().len() == files.len(),
    decreases files.len(),
{
    if files.len() == 0 {
        assert(offsets_of(files).dom() =~= Set::<Seq<char>>::empty());
    } else {
        let last = files.len() - 1;
        let shorter = files.drop_last();
        assert(shorter == files.remove(last));
        lemma_offsets_after_remove(files, shorter, last);
        lemma_domain_size(shorter);
        lemma_offset_of_entry(files, last);
        assert(offsets_of(files).dom() =~= offsets_of(shorter).dom().insert(files[last].path@));
        assert(!offsets_of(shorter).dom().contains(files[last].path@));
    }
}

} // verus!
