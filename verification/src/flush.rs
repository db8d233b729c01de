//! Outcomes of loading and flushing the task files, the errors reported,
//! and the retry rhythm of the background flush.

use vstd::prelude::*;

use crate::cache::FlushErrors;
use crate::text::{decimal, spec_decimal};

verus! {

/// A file system failure around the task directory, with the directory's
/// path.
#[derive(Debug)]
pub enum FsError {
    CreateDir(String),
    ReadDir(String),
    ReadDirEntry(String),
}

impl FsError {
    pub open spec fn spec_message(&self) -> Seq<char> {
        match self {
            FsError::CreateDir(p) => "failed to create directory recursively: "@ + p@,
            FsError::ReadDir(p) => "failed to read directory: "@ + p@,
            FsError::ReadDirEntry(p) => "failed to read entry of directory "@ + p@,
        }
    }

    /// The error message.
    pub fn message(&self) -> (s: String)
        ensures
            s@ == self.spec_message(),
    {
        proof {
            reveal_strlit("failed to create directory recursively: ");
            reveal_strlit("failed to read directory: ");
            reveal_strlit("failed to read entry of directory ");
        }
        let (head, path) = match self {
            FsError::CreateDir(p) => ("failed to create directory recursively: ", p),
            FsError::ReadDir(p) => ("failed to read directory: ", p),
            FsError::ReadDirEntry(p) => ("failed to read entry of directory ", p),
        };
        let mut s = String::from_str(head);
        s.append(path.as_str());
        s
    }
}

/// Why switching the task directory failed, with the message of the
/// failure.
#[derive(Debug)]
pub enum SwitchDirError {
    Flush(String),
    Load(String),
}

impl SwitchDirError {
    pub open spec fn spec_message(&self) -> Seq<char> {
        match self {
            SwitchDirError::Flush(m) => "flush failed: "@ + m@,
            SwitchDirError::Load(m) => "load failed: "@ + m@,
        }
    }

    /// The error message.
    pub fn message(&self) -> (s: String)
        ensures
            s@ == self.spec_message(),
    {
        proof {
            reveal_strlit("flush failed: ");
            reveal_strlit("load failed: ");
        }
        let (head, m) = match self {
            SwitchDirError::Flush(m) => ("flush failed: ", m),
            SwitchDirError::Load(m) => ("load failed: ", m),
        };
        let mut s = String::from_str(head);
        s.append(m.as_str());
        s
    }
}

/// `<verb> of <failed>/<all> tasks failed`.
pub open spec fn spec_count_message(verb: Seq<char>, failed: nat, all: nat) -> Seq<char> {
    verb + " of "@ + spec_decimal(failed) + "/"@ + spec_decimal(all) + " tasks failed"@
}

fn count_message(verb: &str, failed: u64, all: u64) -> (s: String)
    ensures
        s@ == spec_count_message(verb@, failed as nat, all as nat),
{
    proof {
        reveal_strlit(" of ");
        reveal_strlit("/");
        reveal_strlit(" tasks failed");
    }
    let mut s = String::from_str(verb);
    s.append(" of ");
    let f = decimal(failed);
    s.append(f.as_str());
    s.append("/");
    let a = decimal(all);
    s.append(a.as_str());
    s.append(" tasks failed");
    s
}

impl FlushErrors {
    /// The error message: `flushing of <failed>/<all> tasks failed`.
    pub fn message(&self) -> (s: String)
        ensures
            s@ == spec_count_message("flushing"@, self.spec_failed(), self.spec_all()),
    {
        proof {
            reveal_strlit("flushing");
        }
        count_message("flushing", self.failed() as u64, self.all() as u64)
    }
}

/// Outcome of loading the task files that failed for some of them.
#[derive(Debug)]
pub struct LoadErrors {
    failed: usize,
    all: usize,
}

impl LoadErrors {
    pub closed spec fn spec_failed(&self) -> nat {
        self.failed as nat
    }

    pub closed spec fn spec_all(&self) -> nat {
        self.all as nat
    }

    pub fn failed(&self) -> (n: usize)
        ensures
            n == self.spec_failed(),
    {
        self.failed
    }

    pub fn all(&self) -> (n: usize)
        ensures
            n == self.spec_all(),
    {
        self.all
    }

    /// The error message: `loading of <failed>/<all> tasks failed`.
    pub fn message(&self) -> (s: String)
        ensures
            s@ == spec_count_message("loading"@, self.spec_failed(), self.spec_all()),
    {
        proof {
            reveal_strlit("loading");
        }
        count_message("loading", self.failed as u64, self.all as u64)
    }
}

/// The tally of a load: tasks loaded, tasks among them in an outdated
/// format, and failures.
#[derive(Debug)]
pub struct LoadTally {
    pub loaded: usize,
    pub to_migrate: usize,
    pub errors: usize,
}

impl LoadTally {
    pub fn new() -> (t: LoadTally)
        ensures
            t.loaded == 0 && t.to_migrate == 0 && t.errors == 0,
    {
        LoadTally { loaded: 0, to_migrate: 0, errors: 0 }
    }

    /// Counts a task that was read.
    pub fn task_loaded(&mut self, needs_migration: bool)
        requires
            old(self).loaded < usize::MAX,
            old(self).to_migrate < usize::MAX,
        ensures
            final(self).loaded == old(self).loaded + 1,
            final(self).to_migrate == old(self).to_migrate + if needs_migration {
                1int
            } else {
                0int
            },
            final(self).errors == old(self).errors,
    {
        self.loaded = self.loaded + 1;
        if needs_migration {
            self.to_migrate = self.to_migrate + 1;
        }
    }

    /// Counts a directory entry or task file that failed.
    pub fn failed(&mut self)
        requires
            old(self).errors < usize::MAX,
        ensures
            final(self).errors == old(self).errors + 1,
            final(self).loaded == old(self).loaded,
            final(self).to_migrate == old(self).to_migrate,
    {
        self.errors = self.errors + 1;
    }

    /// The outcome: the numbers of tasks loaded and to migrate, or, after
    /// a failure, the failures out of all tasks met.
    pub fn finish(&self) -> (r: Result<(usize, usize), LoadErrors>)
        requires
            self.loaded + self.errors <= usize::MAX,
        ensures
            self.errors == 0 ==> r == Ok::<(usize, usize), LoadErrors>((self.loaded, self.to_migrate)),
            self.errors > 0 ==> (r matches Err(e) && e.spec_failed() == self.errors && e.spec_all() == self.loaded + self.errors),
    {
        if self.errors == 0 {
            Ok((self.loaded, self.to_migrate))
        } else {
            Err(LoadErrors { failed: self.errors, all: self.loaded + self.errors })
        }
    }
}

/// What a flush tells the browsers.
#[derive(Debug)]
pub enum FlushOutcome {
    Success { count: usize },
    Error { message: String },
}

/// Nanoseconds between two background flushes: one minute.
pub const FLUSH_INTERVAL_NANOS: u64 = 60_000_000_000;

/// Failed flushes in a row before a detailed report.
pub const FLUSH_RETRY: usize = 10;

/// The state of the background flush: failed flushes in a row.
#[derive(Debug)]
pub struct FlushRetry {
    pub failed: usize,
}

/// What the background flush does after a flush.
#[derive(Debug)]
pub struct FlushAction {
    /// The event to send, if any.
    pub event: Option<FlushOutcome>,
    /// Nanoseconds until the next flush when it comes early.
    pub retry_after: Option<u64>,
    /// Whether to log a detailed report of the failure.
    pub report: bool,
}

impl FlushRetry {
    pub fn new() -> (r: FlushRetry)
        ensures
            r.failed == 0,
    {
        FlushRetry { failed: 0 }
    }

    /// Decides what follows a flush: a success with tasks written is
    /// announced and resets the failure count; a failure is announced,
    /// brings the next flush forward to a minute divided by one more than
    /// the failed tasks, and after more than [`FLUSH_RETRY`] failures in a
    /// row asks for a report and starts counting anew.
    pub fn after_flush(&mut self, result: &Result<usize, FlushErrors>) -> (a: FlushAction)
        requires
            old(self).failed <= FLUSH_RETRY,
            result matches Err(e) ==> e.spec_failed() + 1 <= u32::MAX,
        ensures
            final(self).failed <= FLUSH_RETRY,
            match result {
                Ok(n) => final(self).failed == 0 && a.retry_after is None && !a.report && match a.event {
                    Some(FlushOutcome::Success { count }) => *n > 0 && count == *n,
                    Some(FlushOutcome::Error { .. }) => false,
                    None => *n == 0,
                },
                Err(e) => {
                    &&& a.event matches Some(FlushOutcome::Error { message }) && message@ == spec_count_message(
                        "flushing"@,
                        e.spec_failed(),
                        e.spec_all(),
                    )
                    &&& a.retry_after == Some(((FLUSH_INTERVAL_NANOS as nat) / ((e.spec_failed() + 1) as nat)) as u64)
                    &&& a.report == (old(self).failed + 1 > FLUSH_RETRY)
                    &&& final(self).failed == if old(self).failed + 1 > FLUSH_RETRY {
                        0
                    } else {
                        old(self).failed + 1
                    }
                },
            },
    {
        match result {
            Ok(n) => {
                self.failed = 0;
                let event = if *n > 0 {
                    Some(FlushOutcome::Success { count: *n })
                } else {
                    None
                };
                FlushAction { event, retry_after: None, report: false }
            },
            Err(e) => {
                let message = e.message();
                let divisor = (e.failed() + 1) as u64;
                let retry = FLUSH_INTERVAL_NANOS / divisor;
                self.failed = self.failed + 1;
                let report = if self.failed > FLUSH_RETRY {
                    self.failed = 0;
                    true
                } else {
                    false
                };
                FlushAction { event: Some(FlushOutcome::Error { message }), retry_after: Some(retry), report }
            },
        }
    }
}

} // verus!
