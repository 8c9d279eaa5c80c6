//! One reading or writing of the store, step by step. The session says what
//! is to be done next; its caller does it and says how it went. The file is
//! locked right after it was opened, and whatever happens while it is locked,
//! the lock is given back before the session ends.
//!
//! The envelope in the file is read by the caller, with a JSON parser. A
//! writing has it read while the file is locked, to learn when the file was
//! last written. A reading has it read after the lock was given back.

use crate::storage::{debug_text, Storage, StorageError, WriteAction};
use crate::time::Duration;
use vstd::prelude::*;

verus! {

/// What the caller is to do next.
#[derive(Debug)]
pub enum Request {
    /// Open the file under the store's path: for a writing so that it can be
    /// read and written, making it where there is none; else for reading.
    Open { write: bool },
    /// Wait for the lock on the file: the exclusive one, or else the shared.
    Lock { exclusive: bool },
    /// Read the file's whole text from its start, and keep it.
    ReadAll,
    /// Read the envelope out of the text that was read, and say which time
    /// it holds; where the text is no envelope of the payload's kind, say why.
    Parse,
    /// Read the clock: the time since the epoch.
    Clock,
    /// Cut or stretch the file to `len` bytes and write `content` from its
    /// start.
    Rewrite { len: u64, content: String },
    /// Give the lock back.
    Unlock,
    /// Nothing: the session has ended.
    Finish,
}

/// How what was asked for went.
#[derive(Debug)]
pub enum Reply {
    /// It was done.
    Done,
    /// It failed; the text says why.
    Failed(String),
    /// The time that was read, off the clock or out of the envelope.
    Time(Duration),
}

/// How a session ends.
pub type Outcome = Result<(), StorageError>;

/// Where a session stands. A session of a writing carries the payload to
/// store until it is sealed.
#[derive(Debug)]
pub enum Session {
    /// The file is to be opened.
    Opening { payload: Option<String> },
    /// The file is open and to be locked.
    Locking { payload: Option<String> },
    /// The file is locked and to be read.
    Reading { payload: Option<String> },
    /// A writing: the envelope that was in the file is to be read.
    Checking { storing: String },
    /// A writing: the clock is to be read. `previous` is the time that the
    /// envelope in the file holds.
    Timing { storing: String, previous: Option<Duration> },
    /// A writing: the file is to be written.
    Rewriting { len: u64, content: String },
    /// The lock is to be given back, and the session ends with `outcome`.
    Unlocking { outcome: Outcome },
    /// A reading: the lock is to be given back, and the envelope is read
    /// after that.
    Releasing,
    /// A reading: the envelope is to be read out of the text.
    Decoding,
    /// The session has ended.
    Finished { outcome: Outcome },
}

/// Whether `e` is the store's error for a failed step on its file.
pub open spec fn is_io_error(e: StorageError, store: Storage, source: String) -> bool {
    e matches StorageError::IO { source: s, path: p } && s == source && p@ == debug_text(
        store.spec_path(),
    )
}

impl Session {
    /// Whether the file is locked while the session stands here.
    pub open spec fn holds_lock(self) -> bool {
        match self {
            Session::Reading { .. } => true,
            Session::Checking { .. } => true,
            Session::Timing { .. } => true,
            Session::Rewriting { .. } => true,
            Session::Unlocking { .. } => true,
            Session::Releasing => true,
            _ => false,
        }
    }

    /// How many steps the session can still take at most.
    pub open spec fn steps_left(self) -> nat {
        match self {
            Session::Opening { .. } => 7,
            Session::Locking { .. } => 6,
            Session::Reading { .. } => 5,
            Session::Checking { .. } => 4,
            Session::Timing { .. } => 3,
            Session::Rewriting { .. } => 2,
            Session::Releasing => 2,
            Session::Unlocking { .. } => 1,
            Session::Decoding => 1,
            Session::Finished { .. } => 0,
        }
    }

    /// Whether `reply` answers what the session asks for.
    pub open spec fn accepts(self, reply: Reply) -> bool {
        match self {
            Session::Checking { .. } | Session::Timing { .. } | Session::Decoding => reply is Time
                || reply is Failed,
            Session::Finished { .. } => false,
            _ => reply is Done || reply is Failed,
        }
    }

    /// Whether `next` is where the session stands after `reply`. A reply that
    /// does not answer what the session asks for leaves it where it stands.
    pub open spec fn leads_to(self, store: Storage, reply: Reply, next: Session) -> bool {
        match (self, reply) {
            (Session::Opening { payload }, Reply::Done) => next == (Session::Locking { payload }),
            (Session::Locking { payload }, Reply::Done) => next == (Session::Reading { payload }),
            (Session::Opening { .. }, Reply::Failed(why)) | (
                Session::Locking { .. },
                Reply::Failed(why),
            ) | (Session::Releasing, Reply::Failed(why)) => next matches Session::Finished {
                outcome: Err(e),
            } && is_io_error(e, store, why),
            (Session::Reading { payload: None }, Reply::Done) => next == Session::Releasing,
            (Session::Reading { payload: Some(storing) }, Reply::Done) => next == (
            Session::Checking { storing }),
            (Session::Checking { storing }, Reply::Time(written)) => next == (Session::Timing {
                storing,
                previous: Some(written),
            }),
            (Session::Checking { storing }, Reply::Failed(_)) => next == (Session::Timing {
                storing,
                previous: None,
            }),
            (Session::Timing { storing, previous }, Reply::Time(now)) => match next {
                Session::Rewriting { len, content } => store.decides(
                    previous,
                    now,
                    storing@,
                    WriteAction::Rewrite { len, content },
                ),
                Session::Unlocking { outcome: Ok(()) } => store.decides(
                    previous,
                    now,
                    storing@,
                    WriteAction::Keep,
                ),
                _ => false,
            },
            (Session::Timing { .. }, Reply::Failed(why)) => next == (Session::Unlocking {
                outcome: Err(StorageError::Time { source: why }),
            }),
            (Session::Rewriting { .. }, Reply::Done) => next == (Session::Unlocking {
                outcome: Ok(()),
            }),
            (Session::Reading { .. }, Reply::Failed(why)) | (
                Session::Rewriting { .. },
                Reply::Failed(why),
            ) => next matches Session::Unlocking { outcome: Err(e) } && is_io_error(e, store, why),
            (Session::Unlocking { outcome }, Reply::Done) => next == (Session::Finished {
                outcome,
            }),
            (Session::Unlocking { outcome: Err(e) }, Reply::Failed(_)) => next == (
            Session::Finished { outcome: Err(e) }),
            (Session::Unlocking { outcome: Ok(()) }, Reply::Failed(why)) => next matches Session::Finished {
                outcome: Err(e),
            } && is_io_error(e, store, why),
            (Session::Releasing, Reply::Done) => next == Session::Decoding,
            (Session::Decoding, Reply::Time(_)) => next == (Session::Finished { outcome: Ok(()) }),
            (Session::Decoding, Reply::Failed(why)) => next == (Session::Finished {
                outcome: Err(StorageError::Serialization { source: why }),
            }),
            _ => next == self,
        }
    }

    /// The session of a reading.
    pub fn read() -> (s: Session)
        ensures
            s == (Session::Opening { payload: None }),
    {
        Session::Opening { payload: None }
    }

    /// The session of a writing of `payload`.
    pub fn write(payload: String) -> (s: Session)
        ensures
            s == (Session::Opening { payload: Some(payload) }),
    {
        Session::Opening { payload: Some(payload) }
    }

    /// What the caller is to do next.
    pub fn request(&self) -> (r: Request)
        ensures
            match *self {
                Session::Opening { payload } => r == (Request::Open { write: payload is Some }),
                Session::Locking { payload } => r == (Request::Lock {
                    exclusive: payload is Some,
                }),
                Session::Reading { .. } => r is ReadAll,
                Session::Checking { .. } | Session::Decoding => r is Parse,
                Session::Timing { .. } => r is Clock,
                Session::Rewriting { len, content } => r == (Request::Rewrite { len, content }),
                Session::Unlocking { .. } | Session::Releasing => r is Unlock,
                Session::Finished { .. } => r is Finish,
            },
    {
        match self {
            Session::Opening { payload } => Request::Open { write: payload.is_some() },
            Session::Locking { payload } => Request::Lock { exclusive: payload.is_some() },
            Session::Reading { .. } => Request::ReadAll,
            Session::Checking { .. } => Request::Parse,
            Session::Decoding => Request::Parse,
            Session::Timing { .. } => Request::Clock,
            Session::Rewriting { len, content } => Request::Rewrite {
                len: *len,
                content: content.clone(),
            },
            Session::Unlocking { .. } => Request::Unlock,
            Session::Releasing => Request::Unlock,
            Session::Finished { .. } => Request::Finish,
        }
    }

    /// Where the session stands after the caller did what was asked for and
    /// `reply` came of it.
    pub fn step(self, store: &Storage, reply: Reply) -> (next: Session)
        ensures
            self.leads_to(*store, reply, next),
    {
        match self {
            Session::Opening { payload } => match reply {
                Reply::Done => Session::Locking { payload },
                Reply::Failed(why) => Session::Finished { outcome: Err(store.io_error(why)) },
                Reply::Time(_) => Session::Opening { payload },
            },
            Session::Locking { payload } => match reply {
                Reply::Done => Session::Reading { payload },
                Reply::Failed(why) => Session::Finished { outcome: Err(store.io_error(why)) },
                Reply::Time(_) => Session::Locking { payload },
            },
            Session::Reading { payload } => match reply {
                Reply::Done => match payload {
                    Some(storing) => Session::Checking { storing },
                    None => Session::Releasing,
                },
                Reply::Failed(why) => Session::Unlocking { outcome: Err(store.io_error(why)) },
                Reply::Time(_) => Session::Reading { payload },
            },
            Session::Checking { storing } => match reply {
                Reply::Time(written) => Session::Timing { storing, previous: Some(written) },
                Reply::Failed(_) => Session::Timing { storing, previous: None },
                Reply::Done => Session::Checking { storing },
            },
            Session::Timing { storing, previous } => match reply {
                Reply::Time(now) => match store.write(previous, now, storing.as_str()) {
                    WriteAction::Rewrite { len, content } => Session::Rewriting { len, content },
                    WriteAction::Keep => Session::Unlocking { outcome: Ok(()) },
                },
                Reply::Failed(why) => Session::Unlocking {
                    outcome: Err(StorageError::Time { source: why }),
                },
                Reply::Done => Session::Timing { storing, previous },
            },
            Session::Rewriting { len, content } => match reply {
                Reply::Done => Session::Unlocking { outcome: Ok(()) },
                Reply::Failed(why) => Session::Unlocking { outcome: Err(store.io_error(why)) },
                Reply::Time(_) => Session::Rewriting { len, content },
            },
            Session::Unlocking { outcome } => match reply {
                Reply::Done => Session::Finished { outcome },
                Reply::Failed(why) => match outcome {
                    Ok(()) => Session::Finished { outcome: Err(store.io_error(why)) },
                    Err(e) => Session::Finished { outcome: Err(e) },
                },
                Reply::Time(_) => Session::Unlocking { outcome },
            },
            Session::Releasing => match reply {
                Reply::Done => Session::Decoding,
                Reply::Failed(why) => Session::Finished { outcome: Err(store.io_error(why)) },
                Reply::Time(_) => Session::Releasing,
            },
            Session::Decoding => match reply {
                Reply::Time(_) => Session::Finished { outcome: Ok(()) },
                Reply::Failed(why) => Session::Finished {
                    outcome: Err(StorageError::Serialization { source: why }),
                },
                Reply::Done => Session::Decoding,
            },
            Session::Finished { outcome } => Session::Finished { outcome },
        }
    }

    /// How the session ended; none while it goes on.
    pub fn outcome(self) -> (r: Option<Outcome>)
        ensures
            match self {
                Session::Finished { outcome } => r == Some(outcome),
                _ => r is None,
            },
    {
        match self {
            Session::Finished { outcome } => Some(outcome),
            _ => None,
        }
    }
}

/// A reply that answers what the session asks for brings the session nearer
/// to its end, so it ends after seven such replies at most.
pub proof fn lemma_session_advances(s: Session, store: Storage, reply: Reply, next: Session)
    requires
        s.accepts(reply),
        s.leads_to(store, reply, next),
    ensures
        next.steps_left() < s.steps_left(),
{
}

/// The lock is taken with the step of locking and with no other, and given
/// back with the step of unlocking and with no other: a session that holds
/// the lock neither ends nor has the envelope of a reading read before it
/// was asked to give the lock back.
pub proof fn lemma_lock_is_given_back(s: Session, store: Storage, reply: Reply, next: Session)
    requires
        s.leads_to(store, reply, next),
    ensures
        next.holds_lock() && !s.holds_lock() ==> s is Locking && reply is Done,
        s.holds_lock() && !next.holds_lock() ==> s is Unlocking || s is Releasing,
        next is Finished || next is Decoding ==> !s.holds_lock() || s is Unlocking
            || s is Releasing,
{
}

/// The file is written only in a session of a writing, after the envelope in
/// it and the clock were read under the lock, and only where a writing is
/// due.
pub proof fn lemma_rewrite_only_when_due(s: Session, store: Storage, reply: Reply, next: Session)
    requires
        s.leads_to(store, reply, next),
        next is Rewriting,
        !(s is Rewriting),
    ensures
        s matches Session::Timing { storing, previous } && reply matches Reply::Time(now)
            && store.decides(
            previous,
            now,
            storing@,
            WriteAction::Rewrite { len: next->len, content: next->content },
        ),
{
}

/// An error that came up while the file was locked is the one that the
/// session ends with, also where giving the lock back fails after it.
pub proof fn lemma_first_error_is_kept(s: Session, store: Storage, reply: Reply, next: Session)
    requires
        s.accepts(reply),
        s.leads_to(store, reply, next),
        s matches Session::Unlocking { outcome: Err(_) },
    ensures
        next == (Session::Finished { outcome: s->Unlocking_outcome }),
{
}

/// A reading whose lock could not be given back ends with that failure,
/// whatever the file holds; only a reading that gave the lock back can end
/// with what the envelope's reader said.
pub proof fn lemma_reading_fails_on_unlock(s: Session, store: Storage, why: String, next: Session)
    requires
        s is Releasing,
        s.leads_to(store, Reply::Failed(why), next),
    ensures
        next matches Session::Finished { outcome: Err(e) } && is_io_error(e, store, why),
{
}

} // verus!
