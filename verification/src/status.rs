//! The status sink of a run: a shared aggregate record for detailed
//! observers, or a bare progress counter for a console bar.
//!
//! The aggregate record is written by every worker of a run and read by any
//! number of observers.  Each update runs under the exclusive side of a
//! reader/writer lock, so the fields of one update change together and no
//! increment is lost; across updates the three `current` text fields are only
//! as fresh as the last worker to write them, a deliberately relaxed
//! consistency that keeps the parallel path free of a global lock.

use std::sync::Arc;

use vstd::prelude::*;
use vstd::rwlock::RwLock;

verus! {

/// Aggregate state of a run: the item handled last and the running counts
/// of correct, incorrect and failed items.
#[derive(Debug)]
pub struct Status {
    pub filename: String,
    pub file_hash: String,
    pub expected_hash: String,
    pub correct_num: usize,
    pub incorrect_num: usize,
    pub error_num: usize,
}

/// A counter one past `n`, held at the type's ceiling rather than wrapping.
pub open spec fn counted_one_more(n: usize) -> usize {
    if n == usize::MAX {
        n
    } else {
        (n + 1) as usize
    }
}

impl Default for Status {
    /// A fresh record: no current item, all counts zero.
    fn default() -> (r: Status)
        ensures
            r.filename@ == Seq::<char>::empty(),
            r.file_hash@ == Seq::<char>::empty(),
            r.expected_hash@ == Seq::<char>::empty(),
            r.correct_num == 0,
            r.incorrect_num == 0,
            r.error_num == 0,
    {
        Status {
            filename: String::new(),
            file_hash: String::new(),
            expected_hash: String::new(),
            correct_num: 0,
            incorrect_num: 0,
            error_num: 0,
        }
    }
}

impl Status {
    /// Set the three current-item text fields, leaving the counts alone.
    pub fn set_text(&mut self, filename: String, file_hash: String, expected_hash: String)
        ensures
            final(self).filename == filename,
            final(self).file_hash == file_hash,
            final(self).expected_hash == expected_hash,
            final(self).correct_num == old(self).correct_num,
            final(self).incorrect_num == old(self).incorrect_num,
            final(self).error_num == old(self).error_num,
    {
        self.filename = filename;
        self.file_hash = file_hash;
        self.expected_hash = expected_hash;
    }

    /// Count one item whose digest matched.
    pub fn inc_correct(&mut self)
        ensures
            final(self).correct_num == counted_one_more(old(self).correct_num),
            final(self).incorrect_num == old(self).incorrect_num,
            final(self).error_num == old(self).error_num,
            final(self).filename == old(self).filename,
            final(self).file_hash == old(self).file_hash,
            final(self).expected_hash == old(self).expected_hash,
    {
        if self.correct_num < usize::MAX {
            self.correct_num = self.correct_num + 1;
        }
    }

    /// Count one item whose digest did not match.
    pub fn inc_incorrect(&mut self)
        ensures
            final(self).incorrect_num == counted_one_more(old(self).incorrect_num),
            final(self).correct_num == old(self).correct_num,
            final(self).error_num == old(self).error_num,
            final(self).filename == old(self).filename,
            final(self).file_hash == old(self).file_hash,
            final(self).expected_hash == old(self).expected_hash,
    {
        if self.incorrect_num < usize::MAX {
            self.incorrect_num = self.incorrect_num + 1;
        }
    }

    /// Count one item whose digest could not be computed.
    pub fn inc_error(&mut self)
        ensures
            final(self).error_num == counted_one_more(old(self).error_num),
            final(self).correct_num == old(self).correct_num,
            final(self).incorrect_num == old(self).incorrect_num,
            final(self).filename == old(self).filename,
            final(self).file_hash == old(self).file_hash,
            final(self).expected_hash == old(self).expected_hash,
    {
        if self.error_num < usize::MAX {
            self.error_num = self.error_num + 1;
        }
    }
}

/// One update of the shared record: advance a counter, or publish which
/// item was handled last.
pub enum StatusUpdate {
    SetText(String, String, String),
    IncCorrect,
    IncIncorrect,
    IncError,
}

impl Status {
    /// Apply one update to the record.  The shared sink runs this under the
    /// exclusive side of its lock, so the fields of one update change
    /// together.
    pub fn apply(&mut self, update: StatusUpdate)
        ensures
            match update {
                StatusUpdate::SetText(filename, file_hash, expected_hash) => {
                    &&& final(self).filename == filename
                    &&& final(self).file_hash == file_hash
                    &&& final(self).expected_hash == expected_hash
                    &&& final(self).correct_num == old(self).correct_num
                    &&& final(self).incorrect_num == old(self).incorrect_num
                    &&& final(self).error_num == old(self).error_num
                },
                StatusUpdate::IncCorrect => {
                    &&& final(self).correct_num == counted_one_more(old(self).correct_num)
                    &&& final(self).incorrect_num == old(self).incorrect_num
                    &&& final(self).error_num == old(self).error_num
                    &&& final(self).filename == old(self).filename
                    &&& final(self).file_hash == old(self).file_hash
                    &&& final(self).expected_hash == old(self).expected_hash
                },
                StatusUpdate::IncIncorrect => {
                    &&& final(self).incorrect_num == counted_one_more(old(self).incorrect_num)
                    &&& final(self).correct_num == old(self).correct_num
                    &&& final(self).error_num == old(self).error_num
                    &&& final(self).filename == old(self).filename
                    &&& final(self).file_hash == old(self).file_hash
                    &&& final(self).expected_hash == old(self).expected_hash
                },
                StatusUpdate::IncError => {
                    &&& final(self).error_num == counted_one_more(old(self).error_num)
                    &&& final(self).correct_num == old(self).correct_num
                    &&& final(self).incorrect_num == old(self).incorrect_num
                    &&& final(self).filename == old(self).filename
                    &&& final(self).file_hash == old(self).file_hash
                    &&& final(self).expected_hash == old(self).expected_hash
                },
            },
    {
        match update {
            StatusUpdate::SetText(filename, file_hash, expected_hash) => {
                self.set_text(filename, file_hash, expected_hash)
            },
            StatusUpdate::IncCorrect => self.inc_correct(),
            StatusUpdate::IncIncorrect => self.inc_incorrect(),
            StatusUpdate::IncError => self.inc_error(),
        }
    }
}


/// The lock invariant of the shared record: any record value may be stored.
pub open spec fn any_record() -> spec_fn(Status) -> bool {
    |s: Status| true
}

/// Relies on std's `Arc::clone`: another reference to the same allocation —
/// the same value.
#[verifier::external_body]
pub(crate) fn arc_clone<T>(arc: &Arc<T>) -> (r: Arc<T>)
    ensures
        r == *arc,
{
    Arc::clone(arc)
}

/// The shared aggregate record of one run: a reader/writer lock around the
/// `Status`, written by every worker and read by any number of observers.
/// Each update runs whole under the exclusive side of the lock; a snapshot
/// is taken whole under the shared side.
pub struct SharedStatus {
    lock: Arc<RwLock<Status, spec_fn(Status) -> bool>>,
}

impl SharedStatus {
    #[verifier::type_invariant]
    spec fn inv(self) -> bool {
        self.lock.pred() == any_record()
    }

    /// A fresh shared record: no current item, all counts zero.
    pub fn new() -> SharedStatus {
        let status: Status = Default::default();
        proof {
            assert(any_record()(status));
        }
        let lock = RwLock::new(status, Ghost(any_record()));
        SharedStatus { lock: Arc::new(lock) }
    }

    /// Another handle to the same shared record.
    pub fn clone_handle(&self) -> SharedStatus {
        proof {
            use_type_invariant(self);
        }
        SharedStatus { lock: arc_clone(&self.lock) }
    }

    /// Apply one update under the exclusive side of the lock: the fields of
    /// one update change together, and no concurrent update is lost.
    pub fn apply(&self, update: StatusUpdate) {
        proof {
            use_type_invariant(self);
        }
        let (mut record, handle) = self.lock.acquire_write();
        record.apply(update);
        proof {
            assert(any_record()(record));
        }
        handle.release_write(record);
    }

    /// A consistent copy of the record: every field from one moment, taken
    /// while the shared side of the lock holds writers out.
    pub fn snapshot(&self) -> Status {
        proof {
            use_type_invariant(self);
        }
        let handle = self.lock.acquire_read();
        let record = handle.borrow();
        let copy = Status {
            filename: record.filename.clone(),
            file_hash: record.file_hash.clone(),
            expected_hash: record.expected_hash.clone(),
            correct_num: record.correct_num,
            incorrect_num: record.incorrect_num,
            error_num: record.error_num,
        };
        handle.release_read();
        copy
    }
}

#[verifier::external_type_specification]
#[verifier::external_body]
pub struct ExProgressBar(indicatif::ProgressBar);

/// Relies on indicatif's `ProgressBar::inc`: advances the bar by one
/// finished item; indicatif documents the position as atomic, so concurrent
/// workers lose no tick.
#[verifier::external_body]
fn progress_inc(progress: &indicatif::ProgressBar) {
    progress.inc(1);
}

/// The sink a run reports into, chosen once per run: the shared aggregate
/// record, or a progress bar that only counts finished items.
pub enum StatusWrapper {
    Status(SharedStatus),
    ProgressBar(indicatif::ProgressBar),
}

impl StatusWrapper {
    /// Record which item was handled last and what was computed for it.
    pub fn set_text(&self, filename: String, file_hash: String, expected_hash: String) {
        match self {
            StatusWrapper::Status(status) => {
                status.apply(StatusUpdate::SetText(filename, file_hash, expected_hash))
            },
            StatusWrapper::ProgressBar(_) => {},
        }
    }

    /// Count one correct outcome.
    pub fn inc_correct(&self) {
        match self {
            StatusWrapper::Status(status) => status.apply(StatusUpdate::IncCorrect),
            StatusWrapper::ProgressBar(progress) => progress_inc(progress),
        }
    }

    /// Count one incorrect outcome.
    pub fn inc_incorrect(&self) {
        match self {
            StatusWrapper::Status(status) => status.apply(StatusUpdate::IncIncorrect),
            StatusWrapper::ProgressBar(progress) => progress_inc(progress),
        }
    }

    /// Count one failed outcome.
    pub fn inc_error(&self) {
        match self {
            StatusWrapper::Status(status) => status.apply(StatusUpdate::IncError),
            StatusWrapper::ProgressBar(progress) => progress_inc(progress),
        }
    }
}

} // verus!
