//! A memory-based data storage system: a map from paths to bytes.

use vstd::prelude::*;

use crate::lookup::{find_key, has_key, key_at};

verus! {

/// An error that can be returned by the memory system.
#[derive(Clone, Debug, PartialEq, Eq)]
pub enum MemoryError {
    /// The path is missing from the system.
    MissingPath(String),
}

/// Whether no two entries share a path.
pub open spec fn paths_unique(entries: Seq<(String, Vec<u8>)>) -> bool {
    forall|i: int, j: int|
        0 <= i < entries.len() && 0 <= j < entries.len() && i != j ==> (#[trigger] entries[i]).0@
            != (#[trigger] entries[j]).0@
}

/// The position of `path` among the entries.
pub open spec fn path_index(entries: Seq<(String, Vec<u8>)>, path: Seq<char>) -> int {
    choose|i: int| 0 <= i < entries.len() && (#[trigger] entries[i]).0@ == path
}

/// The map that a list of entries with distinct paths stands for.
pub open spec fn map_of(entries: Seq<(String, Vec<u8>)>) -> Map<Seq<char>, Seq<u8>> {
    Map::new(
        |path: Seq<char>| has_key(entries, path),
        |path: Seq<char>| entries[path_index(entries, path)].1@,
    )
}

/// With distinct paths, the position of a path is the one that holds it.
proof fn lemma_path_index(entries: Seq<(String, Vec<u8>)>, i: int)
    requires
        paths_unique(entries),
        0 <= i < entries.len(),
    ensures
        path_index(entries, entries[i].0@) == i,
        map_of(entries).contains_key(entries[i].0@),
        map_of(entries)[entries[i].0@] == entries[i].1@,
{
    let k = path_index(entries, entries[i].0@);
    assert(has_key(entries, entries[i].0@));
}

/// Appending an entry with a new path adds that path.
proof fn lemma_map_push(entries: Seq<(String, Vec<u8>)>, entry: (String, Vec<u8>))
    requires
        paths_unique(entries),
        !has_key(entries, entry.0@),
    ensures
        paths_unique(entries.push(entry)),
        map_of(entries.push(entry)) == map_of(entries).insert(entry.0@, entry.1@),
{
    let after = entries.push(entry);
    assert forall|i: int, j: int|
        0 <= i < after.len() && 0 <= j < after.len() && i != j implies (#[trigger] after[i]).0@
        != (#[trigger] after[j]).0@ by {
        if i < entries.len() && j < entries.len() {
            assert(after[i] == entries[i] && after[j] == entries[j]);
        } else if i < entries.len() {
            assert(after[i] == entries[i]);
        } else {
            assert(after[j] == entries[j]);
        }
    }
    let expected = map_of(entries).insert(entry.0@, entry.1@);
    assert forall|p: Seq<char>| #[trigger] map_of(after).contains_key(p) == expected.contains_key(p) by {
        if has_key(after, p) {
            let k = choose|k: int| 0 <= k < after.len() && (#[trigger] after[k]).0@ == p;
            if k < entries.len() {
                assert(entries[k] == after[k]);
                assert(has_key(entries, p));
            }
        }
        if has_key(entries, p) {
            let k = choose|k: int| 0 <= k < entries.len() && (#[trigger] entries[k]).0@ == p;
            assert(after[k] == entries[k]);
            assert(has_key(after, p));
        }
        if p == entry.0@ {
            assert(after[entries.len() as int] == entry);
            assert(has_key(after, p));
        }
    }
    assert forall|p: Seq<char>| #[trigger] map_of(after).contains_key(p) implies map_of(after)[p]
        == expected[p] by {
        let k = choose|k: int| 0 <= k < after.len() && (#[trigger] after[k]).0@ == p;
        lemma_path_index(after, k);
        if k < entries.len() {
            assert(after[k] == entries[k]);
            lemma_path_index(entries, k);
        } else {
            assert(after[k] == entry);
        }
    }
    assert(map_of(after) =~= expected);
}

/// Replacing the entry at a position by one with the same path changes that path's bytes.
proof fn lemma_map_update(entries: Seq<(String, Vec<u8>)>, i: int, entry: (String, Vec<u8>))
    requires
        paths_unique(entries),
        0 <= i < entries.len(),
        entries[i].0@ == entry.0@,
    ensures
        paths_unique(entries.update(i, entry)),
        map_of(entries.update(i, entry)) == map_of(entries).insert(entry.0@, entry.1@),
{
    let after = entries.update(i, entry);
    assert forall|a: int| 0 <= a < after.len() implies (#[trigger] after[a]).0@ == entries[a].0@ by {
        if a != i {
            assert(after[a] == entries[a]);
        }
    }
    assert forall|a: int, b: int|
        0 <= a < after.len() && 0 <= b < after.len() && a != b implies (#[trigger] after[a]).0@
        != (#[trigger] after[b]).0@ by {
        assert(after[a].0@ == entries[a].0@ && after[b].0@ == entries[b].0@);
    }
    let expected = map_of(entries).insert(entry.0@, entry.1@);
    assert forall|p: Seq<char>| #[trigger] map_of(after).contains_key(p) == expected.contains_key(p) by {
        if has_key(after, p) {
            let k = choose|k: int| 0 <= k < after.len() && (#[trigger] after[k]).0@ == p;
            assert(entries[k].0@ == p);
            assert(has_key(entries, p));
        }
        if has_key(entries, p) {
            let k = choose|k: int| 0 <= k < entries.len() && (#[trigger] entries[k]).0@ == p;
            assert(after[k].0@ == p);
            assert(has_key(after, p));
        }
        if p == entry.0@ {
            assert(entries[i].0@ == p);
            assert(has_key(entries, p));
        }
    }
    assert forall|p: Seq<char>| #[trigger] map_of(after).contains_key(p) implies map_of(after)[p]
        == expected[p] by {
        let k = choose|k: int| 0 <= k < after.len() && (#[trigger] after[k]).0@ == p;
        lemma_path_index(after, k);
        if k != i {
            assert(after[k] == entries[k]);
            lemma_path_index(entries, k);
        }
    }
    assert(map_of(after) =~= expected);
}

/// Removing the entry at a position removes its path.
proof fn lemma_map_remove(entries: Seq<(String, Vec<u8>)>, i: int)
    requires
        paths_unique(entries),
        0 <= i < entries.len(),
    ensures
        paths_unique(entries.remove(i)),
        map_of(entries.remove(i)) == map_of(entries).remove(entries[i].0@),
{
    let after = entries.remove(i);
    assert forall|a: int| 0 <= a < after.len() implies #[trigger] after[a] == entries[if a < i {
        a
    } else {
        a + 1
    }] by {}
    assert forall|a: int, b: int|
        0 <= a < after.len() && 0 <= b < after.len() && a != b implies (#[trigger] after[a]).0@
        != (#[trigger] after[b]).0@ by {
        let x = if a < i { a } else { a + 1 };
        let y = if b < i { b } else { b + 1 };
        assert(after[a] == entries[x] && after[b] == entries[y]);
    }
    let gone = entries[i].0@;
    let expected = map_of(entries).remove(gone);
    assert forall|p: Seq<char>| #[trigger] map_of(after).contains_key(p) == expected.contains_key(p) by {
        if has_key(after, p) {
            let k = choose|k: int| 0 <= k < after.len() && (#[trigger] after[k]).0@ == p;
            let x = if k < i { k } else { k + 1 };
            assert(after[k] == entries[x]);
            assert(has_key(entries, p));
            assert(x != i);
        }
        if has_key(entries, p) && p != gone {
            let k = choose|k: int| 0 <= k < entries.len() && (#[trigger] entries[k]).0@ == p;
            assert(k != i);
            let a = if k < i { k } else { k - 1 };
            assert(after[a] == entries[k]);
            assert(has_key(after, p));
        }
    }
    assert forall|p: Seq<char>| #[trigger] map_of(after).contains_key(p) implies map_of(after)[p]
        == expected[p] by {
        let k = choose|k: int| 0 <= k < after.len() && (#[trigger] after[k]).0@ == p;
        lemma_path_index(after, k);
        let x = if k < i { k } else { k + 1 };
        assert(after[k] == entries[x]);
        lemma_path_index(entries, x);
    }
    assert(map_of(after) =~= expected);
}

/// A memory-based data storage system.
///
/// This should only ever be used for testing purposes. It tells paths apart by their text; a
/// storage instance hands it each path by the text by which two paths are the same path.
#[derive(Debug, Default)]
pub struct MemorySystem {
    /// The stored paths and their bytes.
    inner: Vec<(String, Vec<u8>)>,
}

impl View for MemorySystem {
    type V = Map<Seq<char>, Seq<u8>>;

    closed spec fn view(&self) -> Map<Seq<char>, Seq<u8>> {
        map_of(self.inner@)
    }
}

impl MemorySystem {
    /// No two stored entries share a path.
    #[verifier::type_invariant]
    closed spec fn well_formed(self) -> bool {
        paths_unique(self.inner@)
    }

    /// Creates an empty memory system.
    pub fn new() -> (r: MemorySystem)
        ensures
            r@ == Map::<Seq<char>, Seq<u8>>::empty(),
    {
        let r = MemorySystem { inner: Vec::new() };
        assert(r@ =~= Map::<Seq<char>, Seq<u8>>::empty());
        r
    }

    /// Returns whether the path exists within this system.
    pub fn contains_path(&self, path: &str) -> (r: bool)
        ensures
            r == self@.contains_key(path@),
    {
        find_key(&self.inner, path).is_some()
    }

    /// Returns the size of the data at the given path.
    ///
    /// # Errors
    ///
    /// This function will return an error if the path is missing.
    pub fn size(&self, path: &str) -> (r: Result<u64, MemoryError>)
        ensures
            self@.contains_key(path@) ==> r == Ok::<u64, MemoryError>(self@[path@].len() as u64),
            !self@.contains_key(path@) ==> (r matches Err(MemoryError::MissingPath(p)) && p@ == path@),
    {
        proof {
            use_type_invariant(self);
        }
        match find_key(&self.inner, path) {
            Some(i) => {
                proof {
                    lemma_path_index(self.inner@, i as int);
                }
                Ok(self.inner[i].1.len() as u64)
            },
            None => Err(MemoryError::MissingPath(path.to_owned())),
        }
    }

    /// Reads bytes from the given path.
    ///
    /// # Errors
    ///
    /// This function will return an error if the path is missing.
    pub fn read(&self, path: &str) -> (r: Result<Vec<u8>, MemoryError>)
        ensures
            self@.contains_key(path@) ==> (r matches Ok(b) && b@ == self@[path@]),
            !self@.contains_key(path@) ==> (r matches Err(MemoryError::MissingPath(p)) && p@ == path@),
    {
        proof {
            use_type_invariant(self);
        }
        match find_key(&self.inner, path) {
            Some(i) => {
                proof {
                    lemma_path_index(self.inner@, i as int);
                }
                let mut out: Vec<u8> = Vec::new();
                out.extend_from_slice(self.inner[i].1.as_slice());
                assert(out@ =~= self.inner@[i as int].1@);
                Ok(out)
            },
            None => Err(MemoryError::MissingPath(path.to_owned())),
        }
    }

    /// Writes bytes into the given path.
    pub fn write(&mut self, path: &str, bytes: &[u8]) -> (r: Result<(), MemoryError>)
        ensures
            r is Ok,
            final(self)@ == old(self)@.insert(path@, bytes@),
    {
        proof {
            use_type_invariant(&*self);
        }
        let mut inner: Vec<(String, Vec<u8>)> = Vec::new();
        std::mem::swap(&mut inner, &mut self.inner);
        let ghost before = inner@;
        let mut stored: Vec<u8> = Vec::new();
        stored.extend_from_slice(bytes);
        assert(stored@ =~= bytes@);
        let entry = (path.to_owned(), stored);
        match find_key(&inner, path) {
            Some(i) => {
                inner.set(i, entry);
                proof {
                    lemma_map_update(before, i as int, entry);
                }
            },
            None => {
                inner.push(entry);
                proof {
                    lemma_map_push(before, entry);
                }
            },
        }
        self.inner = inner;
        Ok(())
    }

    /// Removes the entry of `path`, returning its bytes.
    fn take(&mut self, path: &str) -> (r: Option<Vec<u8>>)
        ensures
            old(self)@.contains_key(path@) ==> (r matches Some(b) && b@ == old(self)@[path@]),
            !old(self)@.contains_key(path@) ==> r is None,
            final(self)@ == old(self)@.remove(path@),
    {
        proof {
            use_type_invariant(&*self);
        }
        let mut inner: Vec<(String, Vec<u8>)> = Vec::new();
        std::mem::swap(&mut inner, &mut self.inner);
        let ghost before = inner@;
        match find_key(&inner, path) {
            Some(i) => {
                proof {
                    lemma_path_index(before, i as int);
                    lemma_map_remove(before, i as int);
                }
                let entry = inner.remove(i);
                self.inner = inner;
                Some(entry.1)
            },
            None => {
                self.inner = inner;
                assert(map_of(before).remove(path@) =~= map_of(before));
                None
            },
        }
    }

    /// Renames the bytes to be associated with a new path.
    ///
    /// # Errors
    ///
    /// This function will return an error if the source path is missing.
    pub fn rename(&mut self, from: &str, into: &str) -> (r: Result<(), MemoryError>)
        ensures
            old(self)@.contains_key(from@) ==> r is Ok && final(self)@ == old(self)@.remove(from@).insert(
                into@,
                old(self)@[from@],
            ),
            !old(self)@.contains_key(from@) ==> final(self)@ == old(self)@,
            !old(self)@.contains_key(from@) ==> (r matches Err(MemoryError::MissingPath(p)) && p@ == from@),
    {
        match self.take(from) {
            None => {
                proof {
                    assert(old(self)@.remove(from@) =~= old(self)@);
                }
                Err(MemoryError::MissingPath(from.to_owned()))
            },
            Some(bytes) => {
                let r = self.write(into, bytes.as_slice());
                r
            },
        }
    }

    /// Deletes bytes from the given path.
    ///
    /// # Errors
    ///
    /// This function will return an error if the path is missing.
    pub fn delete(&mut self, path: &str) -> (r: Result<(), MemoryError>)
        ensures
            old(self)@.contains_key(path@) ==> r is Ok,
            !old(self)@.contains_key(path@) ==> (r matches Err(MemoryError::MissingPath(p)) && p@ == path@),
            final(self)@ == old(self)@.remove(path@),
    {
        match self.take(path) {
            None => Err(MemoryError::MissingPath(path.to_owned())),
            Some(_) => Ok(()),
        }
    }
}

/// A read after a write of a path gives back the bytes written, and leaves every other path as it
/// was.
pub proof fn lemma_read_after_write(
    stored: Map<Seq<char>, Seq<u8>>,
    path: Seq<char>,
    bytes: Seq<u8>,
    other: Seq<char>,
)
    ensures
        stored.insert(path, bytes).contains_key(path),
        stored.insert(path, bytes)[path] == bytes,
        other != path ==> stored.insert(path, bytes).contains_key(other) == stored.contains_key(other),
        other != path && stored.contains_key(other) ==> stored.insert(path, bytes)[other] == stored[other],
{
}

/// After a rename, the new path holds the bytes the old path held, and the old path is gone
/// unless the two are the same path.
pub proof fn lemma_rename_moves(stored: Map<Seq<char>, Seq<u8>>, from: Seq<char>, into: Seq<char>)
    requires
        stored.contains_key(from),
    ensures
        stored.remove(from).insert(into, stored[from]).contains_key(into),
        stored.remove(from).insert(into, stored[from])[into] == stored[from],
        from != into ==> !stored.remove(from).insert(into, stored[from]).contains_key(from),
        from == into ==> stored.remove(from).insert(into, stored[from]) == stored,
{
    if from == into {
        assert(stored.remove(from).insert(into, stored[from]) =~= stored);
    }
}

/// After a delete, the path no longer exists, and a second delete of it fails.
pub proof fn lemma_delete_removes(stored: Map<Seq<char>, Seq<u8>>, path: Seq<char>)
    ensures
        !stored.remove(path).contains_key(path),
        stored.remove(path).remove(path) == stored.remove(path),
{
    assert(stored.remove(path).remove(path) =~= stored.remove(path));
}

} // verus!
