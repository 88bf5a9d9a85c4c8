//! The logger's decisions: which endpoints it holds, which entries wait in its queue, and when
//! they are handed out to be written.

use time::format_description::well_known::Iso8601;
use time::{OffsetDateTime, UtcOffset};
use vstd::prelude::*;

verus! {

/// The ISO 8601 text that time's `OffsetDateTime::format` writes with `Iso8601::DEFAULT` for the
/// moment `unix_nanos` nanoseconds after the Unix epoch, seen at an offset of `offset_seconds`
/// from UTC; `None` when time cannot represent or format that moment.
pub uninterp spec fn iso8601_text(unix_nanos: i128, offset_seconds: i32) -> Option<Seq<char>>;

/// Formats a moment with time: `UtcOffset::from_whole_seconds`,
/// `OffsetDateTime::from_unix_timestamp_nanos`, `checked_to_offset`, then `format` with
/// `Iso8601::DEFAULT`. Any failure along the way gives `None`.
#[verifier::external_body]
fn format_iso8601(unix_nanos: i128, offset_seconds: i32) -> (r: Option<String>)
    ensures
        match r {
            Some(text) => iso8601_text(unix_nanos, offset_seconds) == Some(text@),
            None => iso8601_text(unix_nanos, offset_seconds) is None,
        },
{
    let offset = UtcOffset::from_whole_seconds(offset_seconds).ok()?;
    let moment = OffsetDateTime::from_unix_timestamp_nanos(unix_nanos).ok()?;
    moment.checked_to_offset(offset)?.format(&Iso8601::DEFAULT).ok()
}

/// A log entry's time: a moment, as nanoseconds since the Unix epoch, seen at an offset from UTC.
#[derive(Clone, Copy, Debug, PartialEq, Eq)]
pub struct Timestamp {
    /// Nanoseconds since the Unix epoch.
    unix_nanos: i128,
    /// The offset from UTC, in seconds.
    offset_seconds: i32,
}

impl Timestamp {
    /// A timestamp is a moment that can be written as ISO 8601 text.
    #[verifier::type_invariant]
    closed spec fn well_formed(self) -> bool {
        iso8601_text(self.unix_nanos, self.offset_seconds) is Some
    }

    /// Nanoseconds since the Unix epoch.
    pub closed spec fn spec_unix_nanos(&self) -> i128 {
        self.unix_nanos
    }

    /// The offset from UTC, in seconds.
    pub closed spec fn spec_offset_seconds(&self) -> i32 {
        self.offset_seconds
    }

    /// The ISO 8601 text of this timestamp.
    pub open spec fn spec_text(&self) -> Seq<char> {
        iso8601_text(self.spec_unix_nanos(), self.spec_offset_seconds()).unwrap()
    }

    /// Creates a timestamp for the moment `unix_nanos` nanoseconds after the Unix epoch, seen at
    /// an offset of `offset_seconds` from UTC; `None` when the moment cannot be written as ISO
    /// 8601 text.
    pub fn new(unix_nanos: i128, offset_seconds: i32) -> (r: Option<Timestamp>)
        ensures
            r is Some <==> iso8601_text(unix_nanos, offset_seconds) is Some,
            r matches Some(t) ==> t.spec_unix_nanos() == unix_nanos && t.spec_offset_seconds()
                == offset_seconds,
    {
        match format_iso8601(unix_nanos, offset_seconds) {
            Some(_) => Some(Timestamp { unix_nanos, offset_seconds }),
            None => None,
        }
    }

    /// Returns the nanoseconds since the Unix epoch.
    pub fn unix_nanos(&self) -> (r: i128)
        ensures
            r == self.spec_unix_nanos(),
    {
        self.unix_nanos
    }

    /// Returns the offset from UTC, in seconds.
    pub fn offset_seconds(&self) -> (r: i32)
        ensures
            r == self.spec_offset_seconds(),
    {
        self.offset_seconds
    }

    /// Returns the timestamp as it is displayed: its ISO 8601 text in brackets.
    pub fn display(&self) -> (r: String)
        ensures
            r@ == seq!['['] + self.spec_text() + seq![']'],
            iso8601_text(self.spec_unix_nanos(), self.spec_offset_seconds()) is Some,
    {
        proof {
            use_type_invariant(self);
        }
        let mut s = String::new();
        s.push('[');
        match format_iso8601(self.unix_nanos, self.offset_seconds) {
            Some(text) => s.append(text.as_str()),
            None => {},
        }
        s.push(']');
        s
    }
}

/// A logging level.
#[derive(Clone, Copy, Debug, PartialEq, Eq)]
pub struct Level {
    /// The level's name.
    pub name: &'static str,
    /// Whether the level reports an error.
    pub error: bool,
}

impl Level {
    /// The debug level.
    pub fn debug() -> (r: Level)
        ensures
            r.name@ == "debug"@,
            !r.error,
    {
        Level { name: "debug", error: false }
    }

    /// The error level.
    pub fn error() -> (r: Level)
        ensures
            r.name@ == "error"@,
            r.error,
    {
        Level { name: "error", error: true }
    }

    /// The info level.
    pub fn info() -> (r: Level)
        ensures
            r.name@ == "info"@,
            !r.error,
    {
        Level { name: "info", error: false }
    }

    /// The warn level.
    pub fn warn() -> (r: Level)
        ensures
            r.name@ == "warn"@,
            r.error,
    {
        Level { name: "warn", error: true }
    }

    /// Returns the level as it is displayed: its name in parentheses.
    pub fn display(&self) -> (r: String)
        ensures
            r@ == seq!['('] + self.name@ + seq![')'],
    {
        let mut s = String::new();
        s.push('(');
        s.append(self.name);
        s.push(')');
        s
    }
}

/// A log entry.
#[derive(Clone, Debug)]
pub struct Entry {
    /// The entry's time.
    pub timestamp: Timestamp,
    /// The entry's level.
    pub level: Level,
    /// The entry's content.
    pub content: String,
}

/// The line an entry is displayed as: its time in brackets, its level in parentheses, then its
/// content, separated by spaces.
pub open spec fn spec_entry_line(entry: Entry) -> Seq<char> {
    seq!['['] + entry.timestamp.spec_text() + seq![']', ' ', '('] + entry.level.name@ + seq![')', ' ']
        + entry.content@
}

impl Entry {
    /// Creates a new [`Entry`].
    pub fn new(timestamp: Timestamp, level: Level, content: String) -> (r: Entry)
        ensures
            r.timestamp == timestamp,
            r.level == level,
            r.content == content,
    {
        Entry { timestamp, level, content }
    }

    /// Returns the line this entry is displayed as.
    pub fn display(&self) -> (r: String)
        ensures
            r@ == spec_entry_line(*self),
    {
        let mut s = self.timestamp.display();
        s.push(' ');
        s.push('(');
        s.append(self.level.name);
        s.push(')');
        s.push(' ');
        s.append(self.content.as_str());
        assert(s@ =~= spec_entry_line(*self));
        s
    }
}

/// The logger's settings.
#[derive(Clone, Debug, Hash, PartialEq, Eq)]
pub struct Settings {
    /// The directory within which to write log files.
    pub directory: String,
    /// The number of entries the logger queues before it writes them; at least 1.
    pub queue_capacity: usize,
    /// The number of milliseconds between flushes of the queue.
    pub queue_duration: u64,
    /// Whether logging is silenced.
    pub quiet: bool,
}

/// Returns the default queue capacity.
pub fn default_queue_capacity() -> (r: usize)
    ensures
        r == 8,
{
    8
}

/// Returns the default queue duration, in milliseconds.
pub fn default_queue_duration() -> (r: u64)
    ensures
        r == 10,
{
    10
}

/// An error the logger's decisions may return.
#[derive(Clone, Debug, PartialEq, Eq)]
pub enum LogError {
    /// The logger has already been initialized.
    AlreadyInitialized,
    /// The named endpoint has already been added.
    DuplicateEndpoint(String),
    /// The named endpoint has an invalid state.
    InvalidEndpointState(String),
    /// The logger has not been initialized.
    NotInitialized,
}

/// A logger: its endpoints, named, and the entries that wait to be written to them.
#[derive(Debug)]
pub struct Logger {
    /// The logger's settings.
    settings: Settings,
    /// The names of the logger's endpoints, in the order they were added.
    endpoints: Vec<String>,
    /// The entries waiting to be written.
    queue: Vec<Entry>,
    /// Whether the logger has been set up.
    initialized: bool,
}

impl Logger {
    /// The logger's settings.
    pub closed spec fn spec_settings(&self) -> Settings {
        self.settings
    }

    /// The names of the logger's endpoints.
    pub closed spec fn spec_endpoints(&self) -> Seq<Seq<char>> {
        self.endpoints@.map_values(|s: String| s@)
    }

    /// The entries waiting to be written.
    pub closed spec fn spec_queue(&self) -> Seq<Entry> {
        self.queue@
    }

    /// Whether the logger has been set up.
    pub closed spec fn spec_initialized(&self) -> bool {
        self.initialized
    }

    /// Whether the logger writes entries: it is not silenced and has an endpoint.
    pub open spec fn spec_enabled(&self) -> bool {
        !self.spec_settings().quiet && self.spec_endpoints().len() > 0
    }

    /// Creates a new [`Logger`].
    pub fn new(settings: Settings) -> (r: Logger)
        requires
            settings.queue_capacity >= 1,
        ensures
            r.spec_settings() == settings,
            r.spec_endpoints() == Seq::<Seq<char>>::empty(),
            r.spec_queue() == Seq::<Entry>::empty(),
            !r.spec_initialized(),
    {
        let r = Logger { settings, endpoints: Vec::new(), queue: Vec::new(), initialized: false };
        assert(r.spec_endpoints() =~= Seq::<Seq<char>>::empty());
        r
    }

    /// Returns whether the logger writes entries.
    pub fn is_enabled(&self) -> (r: bool)
        ensures
            r == self.spec_enabled(),
    {
        !self.settings.quiet && self.endpoints.len() > 0
    }

    /// Returns whether the logger drops entries.
    pub fn is_disabled(&self) -> (r: bool)
        ensures
            r == !self.spec_enabled(),
    {
        self.settings.quiet || self.endpoints.len() == 0
    }

    /// Returns whether the logger has been set up.
    pub fn is_initialized(&self) -> (r: bool)
        ensures
            r == self.spec_initialized(),
    {
        self.initialized
    }

    /// Returns the number of milliseconds between flushes of the queue.
    pub fn duration(&self) -> (r: u64)
        ensures
            r == self.spec_settings().queue_duration,
    {
        self.settings.queue_duration
    }

    /// Returns the queue's capacity.
    pub fn capacity(&self) -> (r: usize)
        ensures
            r == self.spec_settings().queue_capacity,
    {
        self.settings.queue_capacity
    }

    /// Returns whether entries are queued before they are written.
    pub fn is_buffered(&self) -> (r: bool)
        ensures
            r == (self.spec_settings().queue_capacity > 1),
    {
        self.capacity() > 1
    }

    /// Returns the number of queued entries.
    pub fn len(&self) -> (r: usize)
        ensures
            r == self.spec_queue().len(),
    {
        self.queue.len()
    }

    /// Returns whether no entry is queued.
    pub fn is_empty(&self) -> (r: bool)
        ensures
            r == (self.spec_queue().len() == 0),
    {
        self.len() == 0
    }

    /// Returns whether the queue has reached its capacity.
    pub fn is_full(&self) -> (r: bool)
        ensures
            r == (self.spec_queue().len() >= self.spec_settings().queue_capacity),
    {
        self.len() >= self.capacity()
    }

    /// Marks the logger as set up, once its endpoints have been set up.
    ///
    /// # Errors
    ///
    /// This function will return an error if the logger has already been set up.
    pub fn setup(&mut self) -> (r: Result<(), LogError>)
        ensures
            old(self).spec_initialized() ==> r == Err::<(), LogError>(LogError::AlreadyInitialized),
            !old(self).spec_initialized() ==> r is Ok,
            final(self).spec_initialized(),
            final(self).spec_settings() == old(self).spec_settings(),
            final(self).spec_endpoints() == old(self).spec_endpoints(),
            final(self).spec_queue() == old(self).spec_queue(),
    {
        if self.initialized {
            return Err(LogError::AlreadyInitialized);
        }
        self.initialized = true;
        Ok(())
    }

    /// Adds an endpoint by name, before the logger is set up.
    ///
    /// # Errors
    ///
    /// This function will return an error if the logger has been set up or an endpoint of the same
    /// name was added.
    pub fn push_endpoint(&mut self, name: &str) -> (r: Result<(), LogError>)
        ensures
            old(self).spec_initialized() ==> r == Err::<(), LogError>(LogError::AlreadyInitialized),
            !old(self).spec_initialized() && old(self).spec_endpoints().contains(name@) ==> (r matches Err(
                LogError::DuplicateEndpoint(n),
            ) && n@ == name@),
            !old(self).spec_initialized() && !old(self).spec_endpoints().contains(name@) ==> r is Ok,
            r is Ok ==> final(self).spec_endpoints() == old(self).spec_endpoints().push(name@),
            r is Err ==> final(self).spec_endpoints() == old(self).spec_endpoints(),
            final(self).spec_settings() == old(self).spec_settings(),
            final(self).spec_queue() == old(self).spec_queue(),
            final(self).spec_initialized() == old(self).spec_initialized(),
    {
        if self.initialized {
            return Err(LogError::AlreadyInitialized);
        }
        let wanted = name.to_owned();
        let mut i: usize = 0;
        while i < self.endpoints.len()
            invariant
                i <= self.endpoints@.len(),
                !self.initialized,
                *self == *old(self),
                wanted@ == name@,
                forall|j: int| 0 <= j < i ==> (#[trigger] self.endpoints@[j])@ != name@,
            decreases self.endpoints@.len() - i,
        {
            if self.endpoints[i] == wanted {
                proof {
                    assert(self.spec_endpoints()[i as int] == name@);
                }
                return Err(LogError::DuplicateEndpoint(wanted));
            }
            i = i + 1;
        }
        proof {
            if self.spec_endpoints().contains(name@) {
                let k = choose|k: int| 0 <= k < self.spec_endpoints().len() && self.spec_endpoints()[k] == name@;
                assert(self.endpoints@[k]@ == name@);
            }
        }
        let ghost before = self.endpoints@;
        self.endpoints.push(wanted);
        assert(self.spec_endpoints() =~= before.map_values(|s: String| s@).push(name@));
        Ok(())
    }

    /// Queues an entry when the logger writes entries, answering whether the queue is now full and
    /// should be flushed.
    ///
    /// # Errors
    ///
    /// This function will return an error if the logger has not been set up.
    pub fn push_entry(&mut self, entry: Entry) -> (r: Result<bool, LogError>)
        ensures
            !old(self).spec_initialized() ==> r == Err::<bool, LogError>(LogError::NotInitialized)
                && final(self).spec_queue() == old(self).spec_queue(),
            old(self).spec_initialized() ==> final(self).spec_queue() == if old(self).spec_enabled() {
                old(self).spec_queue().push(entry)
            } else {
                old(self).spec_queue()
            },
            old(self).spec_initialized() ==> r == Ok::<bool, LogError>(
                final(self).spec_queue().len() >= old(self).spec_settings().queue_capacity,
            ),
            final(self).spec_settings() == old(self).spec_settings(),
            final(self).spec_endpoints() == old(self).spec_endpoints(),
            final(self).spec_initialized() == old(self).spec_initialized(),
    {
        if !self.initialized {
            return Err(LogError::NotInitialized);
        }
        if self.is_enabled() {
            self.queue.push(entry);
        }
        Ok(self.is_full())
    }

    /// Empties the queue, handing out the entries to write to every endpoint; a logger that does
    /// not write entries drops them and hands out none.
    ///
    /// # Errors
    ///
    /// This function will return an error if the logger has not been set up.
    pub fn flush(&mut self) -> (r: Result<Vec<Entry>, LogError>)
        ensures
            !old(self).spec_initialized() ==> (r matches Err(e) && e == LogError::NotInitialized)
                && final(self).spec_queue() == old(self).spec_queue(),
            old(self).spec_initialized() ==> (r matches Ok(written) && written@ == if old(self).spec_enabled() {
                old(self).spec_queue()
            } else {
                Seq::<Entry>::empty()
            }),
            old(self).spec_initialized() ==> final(self).spec_queue() == Seq::<Entry>::empty(),
            final(self).spec_settings() == old(self).spec_settings(),
            final(self).spec_endpoints() == old(self).spec_endpoints(),
            final(self).spec_initialized() == old(self).spec_initialized(),
    {
        if !self.initialized {
            return Err(LogError::NotInitialized);
        }
        if self.is_disabled() {
            self.queue.clear();
            return Ok(Vec::new());
        }
        let mut written: Vec<Entry> = Vec::new();
        std::mem::swap(&mut written, &mut self.queue);
        Ok(written)
    }

    /// Flushes the queue before the logger's endpoints are closed.
    ///
    /// # Errors
    ///
    /// This function will return an error if the logger has not been set up.
    pub fn close(&mut self) -> (r: Result<Vec<Entry>, LogError>)
        ensures
            !old(self).spec_initialized() ==> (r matches Err(e) && e == LogError::NotInitialized)
                && final(self).spec_queue() == old(self).spec_queue(),
            old(self).spec_initialized() ==> (r matches Ok(written) && written@ == if old(self).spec_enabled() {
                old(self).spec_queue()
            } else {
                Seq::<Entry>::empty()
            }),
            old(self).spec_initialized() ==> final(self).spec_queue() == Seq::<Entry>::empty(),
            final(self).spec_settings() == old(self).spec_settings(),
            final(self).spec_endpoints() == old(self).spec_endpoints(),
            final(self).spec_initialized() == old(self).spec_initialized(),
    {
        self.flush()
    }
}

/// A request handled by the logging thread.
#[derive(Clone, Debug)]
pub enum Request {
    /// Initializes the logger.
    Setup,
    /// Closes the logging thread.
    Close,
    /// Flush the queue of the thread's logger.
    Flush,
    /// Queues an entry to be output during the next flush.
    Entry(Entry),
    /// Adds an endpoint, by name, to the logger.
    Endpoint(String),
}

/// What the logging thread does after the logger handled a request.
#[derive(Clone, Debug)]
pub enum Action {
    /// Nothing more: wait for the next request.
    Idle,
    /// Set up every endpoint; once every one of them is set up, mark the logger as set up with
    /// [`Logger::setup`]. A failed setup leaves the logger as it was, so it can be tried again.
    SetupEndpoints,
    /// Write the entries to every endpoint.
    Write(Vec<Entry>),
    /// Write the entries to every endpoint, close the endpoints and stop.
    Close(Vec<Entry>),
}

impl Logger {
    /// Handles one request of the logging thread, answering what the thread does next.
    ///
    /// # Errors
    ///
    /// This function will return an error if the logger refuses the request; the thread then stops.
    pub fn handle(&mut self, request: Request) -> (r: Result<Action, LogError>)
        ensures
            final(self).spec_settings() == old(self).spec_settings(),
            match request {
                Request::Setup => {
                    &&& old(self).spec_initialized() ==> r == Err::<Action, LogError>(LogError::AlreadyInitialized)
                    &&& !old(self).spec_initialized() ==> (r matches Ok(Action::SetupEndpoints))
                    &&& final(self).spec_initialized() == old(self).spec_initialized()
                    &&& final(self).spec_endpoints() == old(self).spec_endpoints()
                    &&& final(self).spec_queue() == old(self).spec_queue()
                },
                Request::Close | Request::Flush => if !old(self).spec_initialized() {
                    r == Err::<Action, LogError>(LogError::NotInitialized)
                } else {
                    &&& (request is Close ==> (r matches Ok(Action::Close(written)) && written@
                        == if old(self).spec_enabled() {
                        old(self).spec_queue()
                    } else {
                        Seq::<Entry>::empty()
                    }))
                    &&& (request is Flush ==> (r matches Ok(Action::Write(written)) && written@
                        == if old(self).spec_enabled() {
                        old(self).spec_queue()
                    } else {
                        Seq::<Entry>::empty()
                    }))
                    &&& final(self).spec_queue() == Seq::<Entry>::empty()
                },
                Request::Entry(entry) => if !old(self).spec_initialized() {
                    r == Err::<Action, LogError>(LogError::NotInitialized)
                } else {
                    let queued = if old(self).spec_enabled() {
                        old(self).spec_queue().push(entry)
                    } else {
                        old(self).spec_queue()
                    };
                    if queued.len() >= old(self).spec_settings().queue_capacity {
                        (r matches Ok(Action::Write(written)) && written@ == if old(self).spec_enabled() {
                            queued
                        } else {
                            Seq::<Entry>::empty()
                        }) && final(self).spec_queue() == Seq::<Entry>::empty()
                    } else {
                        r matches Ok(Action::Idle) && final(self).spec_queue() == queued
                    }
                },
                Request::Endpoint(name) => {
                    &&& old(self).spec_initialized() ==> r == Err::<Action, LogError>(
                        LogError::AlreadyInitialized,
                    )
                    &&& !old(self).spec_initialized() && old(self).spec_endpoints().contains(name@) ==> (
                    r matches Err(LogError::DuplicateEndpoint(n)) && n@ == name@)
                    &&& !old(self).spec_initialized() && !old(self).spec_endpoints().contains(name@) ==> (
                    r matches Ok(Action::Idle) && final(self).spec_endpoints() == old(
                        self,
                    ).spec_endpoints().push(name@))
                    &&& r is Err ==> final(self).spec_endpoints() == old(self).spec_endpoints()
                },
            },
    {
        match request {
            Request::Setup => {
                if self.initialized {
                    return Err(LogError::AlreadyInitialized);
                }
                Ok(Action::SetupEndpoints)
            },
            Request::Close => {
                let written = self.close()?;
                Ok(Action::Close(written))
            },
            Request::Flush => {
                let written = self.flush()?;
                Ok(Action::Write(written))
            },
            Request::Entry(entry) => {
                if self.push_entry(entry)? {
                    let written = self.flush()?;
                    Ok(Action::Write(written))
                } else {
                    Ok(Action::Idle)
                }
            },
            Request::Endpoint(name) => {
                self.push_endpoint(name.as_str())?;
                Ok(Action::Idle)
            },
        }
    }
}

/// The queue of an enabled, set-up logger after each of `entries` was pushed in turn.
pub open spec fn queue_after_pushes(queue: Seq<Entry>, entries: Seq<Entry>) -> Seq<Entry>
    decreases entries.len(),
{
    if entries.len() == 0 {
        queue
    } else {
        queue_after_pushes(queue.push(entries[0]), entries.drop_first())
    }
}

/// Entries pushed to an enabled, set-up logger wait behind those already queued, in the order they
/// were pushed, so that the next flush hands them all out in that order.
pub proof fn lemma_pushes_keep_order(queue: Seq<Entry>, entries: Seq<Entry>)
    ensures
        queue_after_pushes(queue, entries) == queue + entries,
    decreases entries.len(),
{
    if entries.len() > 0 {
        lemma_pushes_keep_order(queue.push(entries[0]), entries.drop_first());
        assert(queue.push(entries[0]) + entries.drop_first() =~= queue + entries);
    } else {
        assert(queue + entries =~= queue);
    }
}

} // verus!
