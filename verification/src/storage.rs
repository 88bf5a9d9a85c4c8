//! Data storage: a path-keyed byte store, a caching storage front, and byte-level data formats.

use vstd::prelude::*;

use crate::storage::memory::{MemoryError, MemorySystem};

pub mod compression;
pub mod encryption;
pub mod format;
pub mod memory;

verus! {

/// The preference for the storage backend system.
#[derive(Clone, Copy, Debug, Default, Hash, PartialEq, Eq, Structural)]
pub enum System {
    /// The file system.
    #[default]
    File,
    /// The memory system. This should only be used for testing, as data does not persist between runs.
    Memory,
}

impl System {
    /// Returns the system's name as written in settings.
    pub fn name(&self) -> (r: &'static str)
        ensures
            r@ == match self {
                System::File => "file"@,
                System::Memory => "memory"@,
            },
    {
        match self {
            System::File => "file",
            System::Memory => "memory",
        }
    }
}

/// The storage instance's settings.
#[derive(Clone, Debug, Hash, PartialEq, Eq)]
pub struct Settings {
    /// The storage system to use to read and write data.
    pub system: System,
    /// The directory within which to manage data files.
    pub directory: String,
    /// The storage thread's output queue capacity. If set to `1`, no buffering will be done.
    pub queue_capacity: usize,
}

/// Returns the default queue capacity.
pub fn default_queue_capacity() -> (r: usize)
    ensures
        r == 8,
{
    8
}

/// The path `path` names when resolved within `directory`: an absolute path stands for itself,
/// and a relative one is placed under the directory, with a separator added when needed.
pub open spec fn spec_join(directory: Seq<char>, path: Seq<char>) -> Seq<char> {
    if path.len() > 0 && path[0] == '/' {
        path
    } else if directory.len() == 0 {
        path
    } else if directory.last() == '/' {
        directory + path
    } else {
        directory + seq!['/'] + path
    }
}

/// Resolves `path` within `directory`.
pub fn join_path(directory: &str, path: &str) -> (r: String)
    ensures
        r@ == spec_join(directory@, path@),
{
    let path_len = path.unicode_len();
    if path_len > 0 && path.get_char(0) == '/' {
        return path.to_owned();
    }
    let dir_len = directory.unicode_len();
    if dir_len == 0 {
        return path.to_owned();
    }
    let mut joined = directory.to_owned();
    if directory.get_char(dir_len - 1) != '/' {
        joined.push('/');
    }
    joined.append(path);
    joined
}

/// The parts of `p` between its separators, in order; a path without separators is one part.
pub open spec fn spec_segments(p: Seq<char>) -> Seq<Seq<char>>
    decreases p.len(),
{
    if p.len() == 0 {
        seq![Seq::empty()]
    } else if p.last() == '/' {
        spec_segments(p.drop_last()).push(Seq::empty())
    } else {
        let s = spec_segments(p.drop_last());
        s.update(s.len() - 1, s.last().push(p.last()))
    }
}

/// Whether a part names a component of a path: it is neither empty nor `.`.
pub open spec fn is_component(part: Seq<char>) -> bool {
    part.len() > 0 && part != seq!['.']
}

/// The parts that name components, in order: repeated and trailing separators and `.` parts are
/// left out.
pub open spec fn components_of(parts: Seq<Seq<char>>) -> Seq<Seq<char>>
    decreases parts.len(),
{
    if parts.len() == 0 {
        Seq::empty()
    } else if is_component(parts.last()) {
        components_of(parts.drop_last()).push(parts.last())
    } else {
        components_of(parts.drop_last())
    }
}

/// Components written one after another with a separator between each two.
pub open spec fn joined(parts: Seq<Seq<char>>) -> Seq<char>
    decreases parts.len(),
{
    if parts.len() == 0 {
        Seq::empty()
    } else if parts.len() == 1 {
        parts[0]
    } else {
        joined(parts.drop_last()) + seq!['/'] + parts.last()
    }
}

/// Whether a relative path begins with a `.` component.
pub open spec fn begins_with_dot(p: Seq<char>) -> bool {
    p.len() > 0 && p[0] == '.' && (p.len() == 1 || p[1] == '/')
}

/// The text by which two paths are the same path: std's `Path` compares paths by their
/// components, so the key keeps the root, a leading `.` component and the components, and drops
/// repeated and trailing separators and every other `.` component.
pub open spec fn spec_path_key(p: Seq<char>) -> Seq<char> {
    let parts = components_of(spec_segments(p));
    if p.len() > 0 && p[0] == '/' {
        seq!['/'] + joined(parts)
    } else if begins_with_dot(p) {
        if parts.len() == 0 {
            seq!['.']
        } else {
            seq!['.', '/'] + joined(parts)
        }
    } else {
        joined(parts)
    }
}

/// A path always has a part.
proof fn lemma_segments_nonempty(p: Seq<char>)
    ensures
        spec_segments(p).len() >= 1,
    decreases p.len(),
{
    if p.len() > 0 {
        lemma_segments_nonempty(p.drop_last());
    }
}

/// Returns whether a part names a component.
fn part_is_component(part: &String) -> (r: bool)
    ensures
        r == is_component(part@),
{
    let n = part.as_str().unicode_len();
    if n == 0 {
        return false;
    }
    if n == 1 && part.as_str().get_char(0) == '.' {
        assert(part@ =~= seq!['.']);
        return false;
    }
    assert(part@.len() != 1 || part@[0] != '.');
    true
}

/// Gives the text by which two paths are the same path.
pub fn path_key(p: &str) -> (r: String)
    ensures
        r@ == spec_path_key(p@),
{
    let n = p.unicode_len();
    let mut out = String::new();
    let mut any = false;
    let mut part = String::new();
    let mut i: usize = 0;
    proof {
        assert(p@.subrange(0, 0) =~= Seq::<char>::empty());
        assert(spec_segments(Seq::<char>::empty()).drop_last() =~= Seq::<Seq<char>>::empty());
    }
    while i < n
        invariant
            i <= n,
            n == p@.len(),
            spec_segments(p@.subrange(0, i as int)).len() >= 1,
            spec_segments(p@.subrange(0, i as int)).last() == part@,
            out@ == joined(components_of(spec_segments(p@.subrange(0, i as int)).drop_last())),
            any == (components_of(spec_segments(p@.subrange(0, i as int)).drop_last()).len() > 0),
        decreases n - i,
    {
        let ghost before = spec_segments(p@.subrange(0, i as int));
        let ghost after = spec_segments(p@.subrange(0, i + 1));
        let c = p.get_char(i);
        assert(p@.subrange(0, i + 1).drop_last() =~= p@.subrange(0, i as int));
        assert(p@.subrange(0, i + 1).last() == c);
        if c == '/' {
            assert(after == before.push(Seq::<char>::empty()));
            assert(after.drop_last() =~= before);
            assert(before.drop_last().push(before.last()) =~= before);
            let ghost comps = components_of(before.drop_last());
            if part_is_component(&part) {
                assert(components_of(before) == comps.push(part@));
                assert(comps.push(part@).drop_last() =~= comps);
                if any {
                    out.push('/');
                }
                out.append(part.as_str());
                any = true;
                assert(out@ =~= joined(comps.push(part@)));
            } else {
                assert(components_of(before) == comps);
            }
            part = String::new();
            proof {
                lemma_segments_nonempty(p@.subrange(0, i + 1));
            }
        } else {
            assert(after == before.update(before.len() - 1, before.last().push(c)));
            assert(after.drop_last() =~= before.drop_last());
            part.push(c);
            proof {
                lemma_segments_nonempty(p@.subrange(0, i + 1));
            }
        }
        i = i + 1;
    }
    proof {
        assert(p@.subrange(0, n as int) =~= p@);
    }
    let ghost segs = spec_segments(p@);
    assert(segs.drop_last().push(segs.last()) =~= segs);
    let ghost comps = components_of(segs.drop_last());
    if part_is_component(&part) {
        assert(components_of(segs) == comps.push(part@));
        assert(comps.push(part@).drop_last() =~= comps);
        if any {
            out.push('/');
        }
        out.append(part.as_str());
        any = true;
        assert(out@ =~= joined(comps.push(part@)));
    } else {
        assert(components_of(segs) == comps);
    }
    assert(out@ == joined(components_of(segs)));
    assert(any == (components_of(segs).len() > 0));
    let rooted = n > 0 && p.get_char(0) == '/';
    let dotted = !rooted && n > 0 && p.get_char(0) == '.' && (n == 1 || p.get_char(1) == '/');
    if rooted {
        let mut key = String::new();
        key.push('/');
        key.append(out.as_str());
        assert(key@ =~= seq!['/'] + out@);
        key
    } else if dotted {
        let mut key = String::new();
        key.push('.');
        if any {
            key.push('/');
            key.append(out.as_str());
            assert(key@ =~= seq!['.', '/'] + out@);
        } else {
            assert(key@ =~= seq!['.']);
        }
        key
    } else {
        out
    }
}

/// A value that reads data bytes.
///
/// Each answer is one that the reader's `spec_*_answer` function admits; a reader that leaves
/// those functions as they are promises nothing of its answers.
pub trait DataReader {
    /// The error that can be returned during reading.
    type Error;

    /// Whether `answer` is an answer this reader gives when asked whether `path` exists.
    open spec fn spec_exists_answer(&self, path: Seq<char>, answer: Result<bool, Self::Error>) -> bool {
        true
    }

    /// Whether `answer` is an answer this reader gives when asked for the size at `path`.
    open spec fn spec_size_answer(&self, path: Seq<char>, answer: Result<u64, Self::Error>) -> bool {
        true
    }

    /// Whether `answer` is an answer this reader gives when asked for the bytes at `path`.
    open spec fn spec_read_answer(&self, path: Seq<char>, answer: Result<Vec<u8>, Self::Error>) -> bool {
        true
    }

    /// Returns whether the path exists within this reader.
    fn path_exists(&self, path: &str) -> (r: Result<bool, Self::Error>)
        ensures
            self.spec_exists_answer(path@, r),
    ;

    /// Returns the size of the data at the given path.
    fn size(&self, path: &str) -> (r: Result<u64, Self::Error>)
        ensures
            self.spec_size_answer(path@, r),
    ;

    /// Reads bytes from the given path.
    fn read(&self, path: &str) -> (r: Result<Vec<u8>, Self::Error>)
        ensures
            self.spec_read_answer(path@, r),
    ;
}

/// A value that writes data bytes.
///
/// Each change and answer is one that the writer's `spec_*_outcome` function admits; a writer that
/// leaves those functions as they are promises nothing of them.
pub trait DataWriter: Sized {
    /// The error that can be returned during writing.
    type Error;

    /// Whether writing `bytes` into `path` may turn this writer into `after`, answering `answer`.
    open spec fn spec_write_outcome(&self, after: Self, path: Seq<char>, bytes: Seq<u8>, answer: Result<(), Self::Error>) -> bool {
        true
    }

    /// Whether renaming `from` into `into` may turn this writer into `after`, answering `answer`.
    open spec fn spec_rename_outcome(&self, after: Self, from: Seq<char>, into: Seq<char>, answer: Result<(), Self::Error>) -> bool {
        true
    }

    /// Whether deleting `path` may turn this writer into `after`, answering `answer`.
    open spec fn spec_delete_outcome(&self, after: Self, path: Seq<char>, answer: Result<(), Self::Error>) -> bool {
        true
    }

    /// Writes bytes into the given path.
    fn write(&mut self, path: &str, bytes: &[u8]) -> (r: Result<(), Self::Error>)
        ensures
            old(self).spec_write_outcome(*final(self), path@, bytes@, r),
    ;

    /// Renames the bytes to be associated with a new path.
    fn rename(&mut self, from: &str, into: &str) -> (r: Result<(), Self::Error>)
        ensures
            old(self).spec_rename_outcome(*final(self), from@, into@, r),
    ;

    /// Deletes bytes from the given path.
    fn delete(&mut self, path: &str) -> (r: Result<(), Self::Error>)
        ensures
            old(self).spec_delete_outcome(*final(self), path@, r),
    ;
}

impl DataReader for MemorySystem {
    type Error = MemoryError;

    open spec fn spec_exists_answer(&self, path: Seq<char>, answer: Result<bool, MemoryError>) -> bool {
        answer == Ok::<bool, MemoryError>(self@.contains_key(path))
    }

    open spec fn spec_size_answer(&self, path: Seq<char>, answer: Result<u64, MemoryError>) -> bool {
        if self@.contains_key(path) {
            answer == Ok::<u64, MemoryError>(self@[path].len() as u64)
        } else {
            answer matches Err(MemoryError::MissingPath(p)) && p@ == path
        }
    }

    open spec fn spec_read_answer(&self, path: Seq<char>, answer: Result<Vec<u8>, MemoryError>) -> bool {
        if self@.contains_key(path) {
            answer matches Ok(b) && b@ == self@[path]
        } else {
            answer matches Err(MemoryError::MissingPath(p)) && p@ == path
        }
    }

    fn path_exists(&self, path: &str) -> (answer: Result<bool, MemoryError>)
        ensures
            answer == Ok::<bool, MemoryError>(self@.contains_key(path@)),
    {
        Ok(MemorySystem::contains_path(self, path))
    }

    fn size(&self, path: &str) -> (r: Result<u64, MemoryError>)
        ensures
            self@.contains_key(path@) ==> r == Ok::<u64, MemoryError>(self@[path@].len() as u64),
            !self@.contains_key(path@) ==> (r matches Err(MemoryError::MissingPath(p)) && p@ == path@),
    {
        MemorySystem::size(self, path)
    }

    fn read(&self, path: &str) -> (r: Result<Vec<u8>, MemoryError>)
        ensures
            self@.contains_key(path@) ==> (r matches Ok(b) && b@ == self@[path@]),
            !self@.contains_key(path@) ==> (r matches Err(MemoryError::MissingPath(p)) && p@ == path@),
    {
        MemorySystem::read(self, path)
    }
}

impl DataWriter for MemorySystem {
    type Error = MemoryError;

    open spec fn spec_write_outcome(
        &self,
        after: MemorySystem,
        path: Seq<char>,
        bytes: Seq<u8>,
        answer: Result<(), MemoryError>,
    ) -> bool {
        answer is Ok && after@ == self@.insert(path, bytes)
    }

    open spec fn spec_rename_outcome(
        &self,
        after: MemorySystem,
        from: Seq<char>,
        into: Seq<char>,
        answer: Result<(), MemoryError>,
    ) -> bool {
        if self@.contains_key(from) {
            answer is Ok && after@ == self@.remove(from).insert(into, self@[from])
        } else {
            after@ == self@ && (answer matches Err(MemoryError::MissingPath(p)) && p@ == from)
        }
    }

    open spec fn spec_delete_outcome(&self, after: MemorySystem, path: Seq<char>, answer: Result<(), MemoryError>) -> bool {
        &&& self@.contains_key(path) ==> answer is Ok
        &&& !self@.contains_key(path) ==> (answer matches Err(MemoryError::MissingPath(p)) && p@ == path)
        &&& after@ == self@.remove(path)
    }

    fn write(&mut self, path: &str, bytes: &[u8]) -> (r: Result<(), MemoryError>)
        ensures
            r is Ok,
            final(self)@ == old(self)@.insert(path@, bytes@),
    {
        MemorySystem::write(self, path, bytes)
    }

    fn rename(&mut self, from: &str, into: &str) -> (r: Result<(), MemoryError>)
        ensures
            old(self)@.contains_key(from@) ==> r is Ok && final(self)@ == old(self)@.remove(from@).insert(
                into@,
                old(self)@[from@],
            ),
            !old(self)@.contains_key(from@) ==> final(self)@ == old(self)@,
            !old(self)@.contains_key(from@) ==> (r matches Err(MemoryError::MissingPath(p)) && p@ == from@),
    {
        MemorySystem::rename(self, from, into)
    }

    fn delete(&mut self, path: &str) -> (r: Result<(), MemoryError>)
        ensures
            old(self)@.contains_key(path@) ==> r is Ok,
            !old(self)@.contains_key(path@) ==> (r matches Err(MemoryError::MissingPath(p)) && p@ == path@),
            final(self)@ == old(self)@.remove(path@),
    {
        MemorySystem::delete(self, path)
    }
}

/// A storage instance: resolves paths within its directory and caches the bytes it has seen.
#[derive(Debug)]
pub struct Storage {
    /// The storage instance's settings.
    settings: Settings,
    /// The storage instance's cache of bytes by resolved path.
    cache: MemorySystem,
}

/// What the cache holds after a rename of `from` into `into` succeeded: cached bytes of `from`
/// move to `into`, and otherwise `into` is no longer cached, since its stored bytes were replaced.
pub open spec fn spec_cache_renamed(cache: Map<Seq<char>, Seq<u8>>, from: Seq<char>, into: Seq<char>) -> Map<
    Seq<char>,
    Seq<u8>,
> {
    if cache.contains_key(from) {
        cache.remove(from).insert(into, cache[from])
    } else {
        cache.remove(into)
    }
}

impl Storage {
    /// The storage instance's settings.
    pub closed spec fn spec_settings(&self) -> Settings {
        self.settings
    }

    /// The bytes the storage instance has cached, by resolved path.
    pub closed spec fn spec_cache(&self) -> Map<Seq<char>, Seq<u8>> {
        self.cache@
    }

    /// The resolved form of `path`: its place within the directory, by the text by which two
    /// paths are the same path.
    pub open spec fn spec_resolve(&self, path: Seq<char>) -> Seq<char> {
        spec_path_key(spec_join(self.spec_settings().directory@, path))
    }

    /// Creates a new [`Storage`].
    pub fn new(settings: Settings) -> (r: Storage)
        ensures
            r.spec_settings() == settings,
            r.spec_cache() == Map::<Seq<char>, Seq<u8>>::empty(),
    {
        Storage { settings, cache: MemorySystem::new() }
    }

    /// Returns the storage instance's settings.
    pub fn settings(&self) -> (r: &Settings)
        ensures
            *r == self.spec_settings(),
    {
        &self.settings
    }

    /// Resolves `path` within the storage directory.
    pub fn resolve(&self, path: &str) -> (r: String)
        ensures
            r@ == self.spec_resolve(path@),
    {
        let joined = join_path(self.settings.directory.as_str(), path);
        path_key(joined.as_str())
    }

    /// Returns whether data exists at the given path, answering from the cache when it can.
    pub fn path_exists<S: DataReader>(&self, system: &S, path: &str) -> (r: Result<bool, S::Error>)
        ensures
            self.spec_cache().contains_key(self.spec_resolve(path@)) ==> r matches Ok(true),
            !self.spec_cache().contains_key(self.spec_resolve(path@)) ==> system.spec_exists_answer(
                self.spec_resolve(path@),
                r,
            ),
    {
        let resolved = self.resolve(path);
        if self.cache.contains_path(resolved.as_str()) {
            return Ok(true);
        }
        system.path_exists(resolved.as_str())
    }

    /// Returns the size of the data at the given path, answering from the cache when it can.
    pub fn size<S: DataReader>(&self, system: &S, path: &str) -> (r: Result<u64, S::Error>)
        ensures
            self.spec_cache().contains_key(self.spec_resolve(path@)) ==> (r matches Ok(n) && n
                == self.spec_cache()[self.spec_resolve(path@)].len() as u64),
            !self.spec_cache().contains_key(self.spec_resolve(path@)) ==> system.spec_size_answer(
                self.spec_resolve(path@),
                r,
            ),
    {
        let resolved = self.resolve(path);
        match self.cache.size(resolved.as_str()) {
            Ok(n) => Ok(n),
            Err(_) => system.size(resolved.as_str()),
        }
    }

    /// Reads the data at the given path, answering from the cache when it can and caching what the
    /// system returns.
    pub fn read<S: DataReader>(&mut self, system: &S, path: &str) -> (r: Result<Vec<u8>, S::Error>)
        ensures
            final(self).spec_settings() == old(self).spec_settings(),
            old(self).spec_cache().contains_key(old(self).spec_resolve(path@)) ==> ((r matches Ok(b) && b@
                == old(self).spec_cache()[old(self).spec_resolve(path@)]) && final(self).spec_cache()
                == old(self).spec_cache()),
            !old(self).spec_cache().contains_key(old(self).spec_resolve(path@)) ==> match r {
                Ok(b) => final(self).spec_cache() == old(self).spec_cache().insert(
                    old(self).spec_resolve(path@),
                    b@,
                ),
                Err(_) => final(self).spec_cache() == old(self).spec_cache(),
            },
            !old(self).spec_cache().contains_key(old(self).spec_resolve(path@)) ==> system.spec_read_answer(
                old(self).spec_resolve(path@),
                r,
            ),
    {
        let resolved = self.resolve(path);
        if let Ok(bytes) = self.cache.read(resolved.as_str()) {
            return Ok(bytes);
        }
        let result = system.read(resolved.as_str());
        if let Ok(bytes) = &result {
            let _ = self.cache.write(resolved.as_str(), bytes.as_slice());
        }
        result
    }

    /// Writes bytes into the given path, caching them when the system accepts them.
    pub fn write<S: DataWriter>(&mut self, system: &mut S, path: &str, bytes: &[u8]) -> (r: Result<
        (),
        S::Error,
    >)
        ensures
            final(self).spec_settings() == old(self).spec_settings(),
            r is Ok ==> final(self).spec_cache() == old(self).spec_cache().insert(
                old(self).spec_resolve(path@),
                bytes@,
            ),
            r is Err ==> final(self).spec_cache() == old(self).spec_cache(),
            old(system).spec_write_outcome(*final(system), old(self).spec_resolve(path@), bytes@, r),
    {
        let resolved = self.resolve(path);
        let result = system.write(resolved.as_str(), bytes);
        if result.is_ok() {
            let _ = self.cache.write(resolved.as_str(), bytes);
        }
        result
    }

    /// Renames the data at `from` into `into`, moving its cached bytes when the system accepts it.
    pub fn rename<S: DataWriter>(&mut self, system: &mut S, from: &str, into: &str) -> (r: Result<
        (),
        S::Error,
    >)
        ensures
            final(self).spec_settings() == old(self).spec_settings(),
            r is Ok ==> final(self).spec_cache() == spec_cache_renamed(
                old(self).spec_cache(),
                old(self).spec_resolve(from@),
                old(self).spec_resolve(into@),
            ),
            r is Err ==> final(self).spec_cache() == old(self).spec_cache(),
            old(system).spec_rename_outcome(
                *final(system),
                old(self).spec_resolve(from@),
                old(self).spec_resolve(into@),
                r,
            ),
    {
        let from_resolved = self.resolve(from);
        let into_resolved = self.resolve(into);
        let result = system.rename(from_resolved.as_str(), into_resolved.as_str());
        if result.is_ok() && self.cache.rename(from_resolved.as_str(), into_resolved.as_str()).is_err() {
            let _ = self.cache.delete(into_resolved.as_str());
        }
        result
    }

    /// Deletes the data at the given path, dropping its cached bytes when the system accepts it.
    pub fn delete<S: DataWriter>(&mut self, system: &mut S, path: &str) -> (r: Result<(), S::Error>)
        ensures
            final(self).spec_settings() == old(self).spec_settings(),
            r is Ok ==> final(self).spec_cache() == old(self).spec_cache().remove(old(self).spec_resolve(path@)),
            r is Err ==> final(self).spec_cache() == old(self).spec_cache(),
            old(system).spec_delete_outcome(*final(system), old(self).spec_resolve(path@), r),
    {
        let resolved = self.resolve(path);
        let result = system.delete(resolved.as_str());
        if result.is_ok() {
            let _ = self.cache.delete(resolved.as_str());
        }
        result
    }
}

/// A request handled by the storage thread.
#[derive(Clone, Debug, PartialEq, Eq)]
pub enum Request {
    /// Returns whether a path exists.
    Exists(String),
    /// Returns the size of the data at the given path.
    Size(String),
    /// Returns the data at the given path.
    Read(String),
    /// Writes bytes into the given path.
    Write(String, Vec<u8>),
    /// Renames the bytes to be associated with a new path.
    Rename(String, String),
    /// Deletes the data at the given path.
    Delete(String),
}

/// A response sent back by the storage thread.
#[derive(Debug)]
pub enum Response<E> {
    /// Acknowledges a request.
    Acknowledge,
    /// Fails a request.
    Error(E),
    /// Whether data exists.
    Exists(bool),
    /// The size of some data.
    Size(u64),
    /// The bytes of some data.
    Read(Vec<u8>),
}

/// Answers one request of the storage thread, through the storage instance and its system.
///
/// The answer to each request is that of the storage method it names, carried in the matching
/// response, or the system's error.
pub fn run<S, E>(storage: &mut Storage, system: &mut S, request: Request) -> (r: Response<E>) where
    S: DataReader<Error = E> + DataWriter<Error = E>,

    ensures
        final(storage).spec_settings() == old(storage).spec_settings(),
        match request {
            Request::Exists(path) => {
                &&& (r is Exists || r is Error)
                &&& old(storage).spec_cache().contains_key(old(storage).spec_resolve(path@)) ==> (r matches Response::Exists(true))
                &&& final(storage).spec_cache() == old(storage).spec_cache()
            },
            Request::Size(path) => {
                &&& (r is Size || r is Error)
                &&& old(storage).spec_cache().contains_key(old(storage).spec_resolve(path@)) ==> (r matches Response::Size(n) && n
                    == old(storage).spec_cache()[old(storage).spec_resolve(path@)].len() as u64)
                &&& final(storage).spec_cache() == old(storage).spec_cache()
            },
            Request::Read(path) => {
                &&& (r is Read || r is Error)
                &&& old(storage).spec_cache().contains_key(old(storage).spec_resolve(path@)) ==> ((r matches Response::Read(b) && b@
                    == old(storage).spec_cache()[old(storage).spec_resolve(path@)]) && final(storage).spec_cache()
                    == old(storage).spec_cache())
                &&& !old(storage).spec_cache().contains_key(old(storage).spec_resolve(path@)) ==> match r {
                    Response::Read(b) => final(storage).spec_cache() == old(storage).spec_cache().insert(
                        old(storage).spec_resolve(path@),
                        b@,
                    ),
                    _ => final(storage).spec_cache() == old(storage).spec_cache(),
                }
            },
            Request::Write(path, bytes) => {
                &&& (r is Acknowledge || r is Error)
                &&& r is Acknowledge ==> final(storage).spec_cache() == old(storage).spec_cache().insert(
                    old(storage).spec_resolve(path@),
                    bytes@,
                )
                &&& r is Error ==> final(storage).spec_cache() == old(storage).spec_cache()
            },
            Request::Rename(from, into) => {
                &&& (r is Acknowledge || r is Error)
                &&& r is Acknowledge ==> final(storage).spec_cache() == spec_cache_renamed(
                    old(storage).spec_cache(),
                    old(storage).spec_resolve(from@),
                    old(storage).spec_resolve(into@),
                )
                &&& r is Error ==> final(storage).spec_cache() == old(storage).spec_cache()
            },
            Request::Delete(path) => {
                &&& (r is Acknowledge || r is Error)
                &&& r is Acknowledge ==> final(storage).spec_cache() == old(storage).spec_cache().remove(
                    old(storage).spec_resolve(path@),
                )
                &&& r is Error ==> final(storage).spec_cache() == old(storage).spec_cache()
            },
        },
{
    match request {
        Request::Exists(path) => match storage.path_exists(system, path.as_str()) {
            Ok(found) => Response::Exists(found),
            Err(e) => Response::Error(e),
        },
        Request::Size(path) => match storage.size(system, path.as_str()) {
            Ok(n) => Response::Size(n),
            Err(e) => Response::Error(e),
        },
        Request::Read(path) => match storage.read(system, path.as_str()) {
            Ok(bytes) => Response::Read(bytes),
            Err(e) => Response::Error(e),
        },
        Request::Write(path, bytes) => match storage.write(system, path.as_str(), bytes.as_slice()) {
            Ok(()) => Response::Acknowledge,
            Err(e) => Response::Error(e),
        },
        Request::Rename(from, into) => match storage.rename(system, from.as_str(), into.as_str()) {
            Ok(()) => Response::Acknowledge,
            Err(e) => Response::Error(e),
        },
        Request::Delete(path) => match storage.delete(system, path.as_str()) {
            Ok(()) => Response::Acknowledge,
            Err(e) => Response::Error(e),
        },
    }
}

/// Two relative paths resolve to the same path within a directory only when they are the same.
pub proof fn lemma_join_relative_injective(directory: Seq<char>, a: Seq<char>, b: Seq<char>)
    requires
        !(a.len() > 0 && a[0] == '/'),
        !(b.len() > 0 && b[0] == '/'),
    ensures
        spec_join(directory, a) == spec_join(directory, b) ==> a == b,
{
    if spec_join(directory, a) == spec_join(directory, b) {
        if directory.len() > 0 {
            let prefix = if directory.last() == '/' {
                directory
            } else {
                directory + seq!['/']
            };
            assert(spec_join(directory, a) =~= prefix + a);
            assert(spec_join(directory, b) =~= prefix + b);
            assert(a =~= (prefix + a).subrange(prefix.len() as int, (prefix + a).len() as int));
            assert(b =~= (prefix + b).subrange(prefix.len() as int, (prefix + b).len() as int));
        }
    }
}

/// Once a write through the storage succeeded, the cache answers a read of that path with the
/// bytes written, and moving or deleting other paths leaves that answer as it was.
pub proof fn lemma_cached_after_write(
    cache: Map<Seq<char>, Seq<u8>>,
    resolved: Seq<char>,
    bytes: Seq<u8>,
    other: Seq<char>,
    into: Seq<char>,
)
    requires
        other != resolved,
        into != resolved,
    ensures
        cache.insert(resolved, bytes).contains_key(resolved),
        cache.insert(resolved, bytes)[resolved] == bytes,
        cache.insert(resolved, bytes).remove(other)[resolved] == bytes,
        spec_cache_renamed(cache.insert(resolved, bytes), other, into)[resolved] == bytes,
{
}

/// After a rename succeeded, the cache answers the new path only with the bytes it held for the
/// old path, never with bytes it held for the new path before.
pub proof fn lemma_rename_leaves_no_stale_bytes(cache: Map<Seq<char>, Seq<u8>>, from: Seq<char>, into: Seq<char>)
    ensures
        spec_cache_renamed(cache, from, into).contains_key(into) ==> cache.contains_key(from)
            && spec_cache_renamed(cache, from, into)[into] == cache[from],
{
}

/// What a storage instance's read of a resolved path gives over stored bytes: the cached bytes on
/// a hit, and the stored bytes, if any, on a miss.
pub open spec fn spec_cached_read(
    cache: Map<Seq<char>, Seq<u8>>,
    stored: Map<Seq<char>, Seq<u8>>,
    path: Seq<char>,
) -> Option<Seq<u8>> {
    if cache.contains_key(path) {
        Some(cache[path])
    } else if stored.contains_key(path) {
        Some(stored[path])
    } else {
        None
    }
}

/// Whether every cached path holds the bytes stored at it.
pub open spec fn cache_agrees(cache: Map<Seq<char>, Seq<u8>>, stored: Map<Seq<char>, Seq<u8>>) -> bool {
    forall|p: Seq<char>| #[trigger] cache.contains_key(p) ==> stored.contains_key(p) && stored[p] == cache[p]
}

/// Over the in-memory system, once a rename of a stored path succeeded, reading the new path
/// through the storage instance gives the bytes that were at the old path, whether or not either
/// path was cached, and the cache still agrees with what is stored.
pub proof fn lemma_read_after_rename(
    cache: Map<Seq<char>, Seq<u8>>,
    stored: Map<Seq<char>, Seq<u8>>,
    from: Seq<char>,
    into: Seq<char>,
)
    requires
        cache_agrees(cache, stored),
        stored.contains_key(from),
    ensures
        spec_cached_read(
            spec_cache_renamed(cache, from, into),
            stored.remove(from).insert(into, stored[from]),
            into,
        ) == Some(stored[from]),
        cache_agrees(spec_cache_renamed(cache, from, into), stored.remove(from).insert(into, stored[from])),
{
    let after = stored.remove(from).insert(into, stored[from]);
    let renamed = spec_cache_renamed(cache, from, into);
    assert forall|p: Seq<char>| #[trigger] renamed.contains_key(p) implies after.contains_key(p) && after[p]
        == renamed[p] by {
        if p != into {
            assert(cache.contains_key(p));
        }
    }
}

} // verus!
