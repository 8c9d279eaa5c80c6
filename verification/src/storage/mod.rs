//! The store: one payload under one path, kept in an envelope that says when
//! it was written, and written anew only when the last writing is old enough.
//!
//! The store decides; it opens no file and reads no envelope. Its caller
//! works on the file under `path` as a session asks for it, says what time
//! the envelope in the file holds, and carries out what `write` answers.

pub mod envelope;
pub mod session;

use crate::storage::envelope::{frame, seal};
use crate::text::chars_of;
use crate::time::Duration;
use vstd::prelude::*;
use vstd::string::*;
use vstd::utf8::encode_utf8;

verus! {

/// Why the store failed.
#[derive(Debug)]
pub enum StorageError {
    /// The file under `path` could not be opened, locked, read or written;
    /// `source` says why.
    IO { source: String, path: String },
    /// What the file holds is no envelope, or its payload is not what was
    /// asked for; `source` says why.
    Serialization { source: String },
    /// The clock could not be read; `source` says why.
    Time { source: String },
}

impl StorageError {
    /// What the error says of its cause.
    pub open spec fn spec_source(&self) -> Seq<char> {
        match *self {
            StorageError::IO { source, .. } => source@,
            StorageError::Serialization { source } => source@,
            StorageError::Time { source } => source@,
        }
    }

    /// The text of the error as it is shown to the user.
    pub fn to_string(&self) -> (s: String)
        ensures
            s@ == "Storage Error: "@ + self.spec_source(),
    {
        let mut s = String::from_str("Storage Error: ");
        match self {
            StorageError::IO { source, .. } => s.append(source.as_str()),
            StorageError::Serialization { source } => s.append(source.as_str()),
            StorageError::Time { source } => s.append(source.as_str()),
        }
        s
    }
}

/// What is to be done with the file once `write` has decided.
#[derive(Debug)]
pub enum WriteAction {
    /// Nothing: the file stays as it is.
    Keep,
    /// The file is cut or stretched to `len` bytes, and `content` is written
    /// from its start.
    Rewrite { len: u64, content: String },
}

/// A file cut or stretched to `len` bytes; what it gains holds zeros.
pub open spec fn resized(file: Seq<u8>, len: nat) -> Seq<u8> {
    if len <= file.len() {
        file.take(len as int)
    } else {
        file + Seq::new((len - file.len()) as nat, |i: int| 0u8)
    }
}

/// A file after `data` was written from its start.
pub open spec fn written_from_start(file: Seq<u8>, data: Seq<u8>) -> Seq<u8> {
    if data.len() <= file.len() {
        data + file.skip(data.len() as int)
    } else {
        data
    }
}

impl WriteAction {
    /// The file after the action was carried out on `file`.
    pub open spec fn applied(&self, file: Seq<u8>) -> Seq<u8> {
        match *self {
            WriteAction::Keep => file,
            WriteAction::Rewrite { len, content } => written_from_start(
                resized(file, len as nat),
                encode_utf8(content@),
            ),
        }
    }
}

/// The path of `name` under the directory `dir`, as Unix writes paths: a name
/// that starts at the root stands for itself, and a separator is put between
/// the two where `dir` does not end in one.
pub open spec fn joined(dir: Seq<char>, name: Seq<char>) -> Seq<char> {
    if name.len() > 0 && name[0] == '/' {
        name
    } else if dir.len() > 0 && dir.last() != '/' {
        dir + seq!['/'] + name
    } else {
        dir + name
    }
}

/// The text that `{:?}` writes for the path `s`: the path between quotes,
/// its special characters escaped.
pub uninterp spec fn debug_text(s: Seq<char>) -> Seq<char>;

/// `format!` with `{:?}` on `s` as a `std::path::Path`. The text depends on
/// the path's characters alone.
#[verifier::external_body]
fn quoted(s: &str) -> (r: String)
    ensures
        r@ == debug_text(s@),
{
    format!("{:?}", std::path::Path::new(s))
}

/// A store: where its file is and how old a writing must be before the next.
#[derive(Debug)]
pub struct Storage {
    path: String,
    min_duration: Duration,
    debug: bool,
}

impl Storage {
    /// The path of the store's file.
    pub closed spec fn spec_path(&self) -> Seq<char> {
        self.path@
    }

    /// The least span between two writings.
    pub closed spec fn spec_min_duration(&self) -> Duration {
        self.min_duration
    }

    /// Whether the caller is to report what it does.
    pub closed spec fn spec_debug(&self) -> bool {
        self.debug
    }

    /// A store whose file is `file_name` under the directory `dir`.
    pub fn new(dir: &str, file_name: String, min_duration: Duration, debug: bool) -> (s: Storage)
        ensures
            s.spec_path() == joined(dir@, file_name@),
            s.spec_min_duration() == min_duration,
            s.spec_debug() == debug,
    {
        let d = chars_of(dir);
        let n = chars_of(file_name.as_str());
        let path = if n.len() > 0 && n[0] == '/' {
            file_name
        } else {
            let mut p = String::from_str(dir);
            if d.len() > 0 && d[d.len() - 1] != '/' {
                p.append("/");
                proof {
                    reveal_strlit("/");
                    assert("/"@ =~= seq!['/']);
                }
            }
            p.append(file_name.as_str());
            p
        };
        Storage { path, min_duration, debug }
    }

    /// The path of the store's file.
    pub fn path(&self) -> (p: &String)
        ensures
            p@ == self.spec_path(),
    {
        &self.path
    }

    /// The least span between two writings.
    pub fn min_duration(&self) -> (d: Duration)
        ensures
            d == self.spec_min_duration(),
    {
        self.min_duration
    }

    /// Whether the caller is to report what it does.
    pub fn debug(&self) -> (b: bool)
        ensures
            b == self.spec_debug(),
    {
        self.debug
    }

    /// The error of a failed operation on the store's file.
    pub fn io_error(&self, source: String) -> (e: StorageError)
        ensures
            e matches StorageError::IO { source: s, path: p } && s == source && p@ == debug_text(
                self.spec_path(),
            ),
    {
        StorageError::IO { source, path: quoted(self.path.as_str()) }
    }

    /// Whether a file is to be written anew at `now`, where `previous` is
    /// the time that the envelope in it holds, and is none where it holds no
    /// envelope: the file is written where it holds none, or one that was
    /// written at least the store's least span before `now`.
    pub open spec fn is_due(&self, previous: Option<Duration>, now: Duration) -> bool {
        match previous {
            Some(written) => now.total_nanos() >= written.total_nanos()
                + self.spec_min_duration().total_nanos(),
            None => true,
        }
    }

    /// Whether `action` is what `write` decides at `now` when `payload` is to
    /// be stored in a file whose envelope holds the time `previous`.
    pub open spec fn decides(
        &self,
        previous: Option<Duration>,
        now: Duration,
        payload: Seq<char>,
        action: WriteAction,
    ) -> bool {
        match action {
            WriteAction::Rewrite { len, content } => {
                &&& self.is_due(previous, now)
                &&& content@ == frame(now.spec_secs(), now.spec_subsec_nanos(), payload)
                &&& len == encode_utf8(content@).len()
            },
            WriteAction::Keep => !self.is_due(previous, now),
        }
    }

    /// Decides at `now` what becomes of the file when `payload` is to be
    /// stored. `previous` is the time that the envelope in the file holds,
    /// and none where the file holds no envelope. Where a writing is due, the
    /// file is to hold the envelope of `payload` written at `now` and nothing
    /// else; where none is due, the file stays.
    pub fn write(
        &self,
        previous: Option<Duration>,
        now: Duration,
        payload: &str,
    ) -> (action: WriteAction)
        ensures
            self.decides(previous, now, payload@, action),
    {
        let due = match previous {
            Some(written) => now.as_nanos() >= written.as_nanos() + self.min_duration.as_nanos(),
            None => true,
        };
        if due {
            let content = seal(&now, payload);
            let len = content.as_str().as_bytes().len() as u64;
            WriteAction::Rewrite { len, content }
        } else {
            WriteAction::Keep
        }
    }
}

/// A file that was cut or stretched to the length of `data` and then written
/// from its start holds `data` and nothing else, whatever it held before.
pub proof fn lemma_rewrite_leaves_data(file: Seq<u8>, data: Seq<u8>)
    ensures
        written_from_start(resized(file, data.len()), data) == data,
{
    let cut = resized(file, data.len());
    assert(cut.len() == data.len());
    assert(cut.skip(data.len() as int) =~= Seq::<u8>::empty());
    assert(data + Seq::<u8>::empty() =~= data);
}

/// A rewriting as `write` orders it leaves the file exactly as long as the
/// new envelope, and holding it.
pub proof fn lemma_rewrite_truncates(action: WriteAction, file: Seq<u8>)
    requires
        action matches WriteAction::Rewrite { len, content } && len
            == encode_utf8(content@).len(),
    ensures
        action.applied(file) == encode_utf8(action->content@),
        action.applied(file).len() == action->len,
{
    lemma_rewrite_leaves_data(file, encode_utf8(action->content@));
}

/// Two writings in a row, the first into a file that holds no envelope, the
/// second into the file that the first left, whose envelope holds the time of
/// the first. The first leaves the envelope of its payload and nothing else.
/// Where less than the store's least span lies between the two, the second
/// leaves the file as it is, with the first one's time and payload; else the
/// file holds the envelope of the second payload, written at the second time,
/// and nothing else.
pub proof fn lemma_second_write(
    store: Storage,
    file: Seq<u8>,
    first: Duration,
    first_payload: Seq<char>,
    first_action: WriteAction,
    second: Duration,
    second_payload: Seq<char>,
    second_action: WriteAction,
)
    requires
        store.decides(None, first, first_payload, first_action),
        store.decides(Some(first), second, second_payload, second_action),
    ensures
        ({
            let written = encode_utf8(
                frame(first.spec_secs(), first.spec_subsec_nanos(), first_payload),
            );
            &&& first_action.applied(file) == written
            &&& if second.total_nanos() < first.total_nanos()
                + store.spec_min_duration().total_nanos() {
                second_action.applied(written) == written
            } else {
                second_action.applied(written) == encode_utf8(
                    frame(second.spec_secs(), second.spec_subsec_nanos(), second_payload),
                )
            }
        }),
{
    lemma_rewrite_truncates(first_action, file);
    if second_action is Rewrite {
        lemma_rewrite_truncates(
            second_action,
            encode_utf8(frame(first.spec_secs(), first.spec_subsec_nanos(), first_payload)),
        );
    }
}

} // verus!
