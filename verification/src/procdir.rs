//! The endpoint directory: a filesystem-backed rendezvous point that
//! coordinates at most one server per named endpoint.
//!
//! An endpoint owns three paths under the system temporary directory: the
//! directory itself, a lock file holding the owning process id in decimal
//! text, and a socket file. This module holds everything about the protocol
//! that is pure computation: path construction and validation, the decimal
//! pid text, and the locking rules. The rules are stated as transitions over
//! an [`EndpointState`], the observed on-disk state of the endpoint; the
//! caller performs the actual filesystem operations and must mirror the
//! transition that the ensures clause describes.

use vstd::prelude::*;
use vstd::slice::slice_index_get;

use crate::error::Error;

verus! {

/// The joined path `{tmp}/{name}` of a named endpoint.
pub open spec fn endpoint_path(tmp: Seq<char>, name: Seq<char>) -> Seq<char> {
    tmp + "/"@ + name
}

/// The lock file path under an endpoint directory.
pub open spec fn lock_file_path(dir: Seq<char>) -> Seq<char> {
    dir + "/lock"@
}

/// The socket file path under an endpoint directory.
pub open spec fn socket_file_path(dir: Seq<char>) -> Seq<char> {
    dir + "/socket"@
}

/// A path is absolute when it starts at the filesystem root.
pub open spec fn is_absolute(path: Seq<char>) -> bool {
    path.len() > 0 && path[0] == '/'
}

/// What the lock file currently holds, as either side observes it.
#[derive(Clone, Copy, PartialEq, Eq, Structural, Debug)]
pub enum LockContent {
    /// No lock file exists.
    Missing,
    /// The lock file holds this process id.
    Pid(u32),
    /// The lock file exists but does not hold a decimal process id.
    Garbled,
}

/// The observed on-disk state of one endpoint: whether its directory and
/// socket file are present, and what its lock file holds.
#[derive(Clone, Copy, PartialEq, Eq, Structural, Debug)]
pub struct EndpointState {
    /// Whether the endpoint directory exists.
    pub dir_present: bool,
    /// What the lock file holds.
    pub lock: LockContent,
    /// Whether the socket file exists.
    pub socket_present: bool,
}

/// Locking succeeds unless a different process id is recorded in the lock
/// file. A missing or garbled lock file never blocks a caller, and re-locking
/// by the recorded owner is allowed.
pub open spec fn lock_allowed(fs: EndpointState, caller: u32) -> bool {
    !(fs.lock matches LockContent::Pid(p) && p != caller)
}

/// The state after a lock attempt: on success the lock file holds the
/// caller's process id; on contention nothing changes.
pub open spec fn lock_step(fs: EndpointState, caller: u32) -> EndpointState {
    if lock_allowed(fs, caller) {
        EndpointState { lock: LockContent::Pid(caller), ..fs }
    } else {
        fs
    }
}

/// The state after a close: the caller removes the lock file, the socket file
/// and the directory only when the lock file records its own process id;
/// otherwise the close is a silent no-op.
pub open spec fn close_step(fs: EndpointState, caller: u32) -> EndpointState {
    if fs.lock == LockContent::Pid(caller) {
        EndpointState { dir_present: false, lock: LockContent::Missing, socket_present: false }
    } else {
        fs
    }
}

/// The description used when a client finds no socket file.
pub open spec fn msg_socket_missing() -> Seq<char> {
    "socket file does not exist"@
}

/// The description used when a client manages to acquire the lock, proving
/// that no live server holds the endpoint.
pub open spec fn msg_not_locked() -> Seq<char> {
    "endpoint directory is not locked by a server"@
}

/// The three paths of one endpoint.
#[derive(Debug)]
pub struct ProcessDirectory {
    /// The endpoint directory `{tmp}/{name}`.
    pub path: String,
    /// The lock file `{tmp}/{name}/lock`.
    pub lock: String,
    /// The socket file `{tmp}/{name}/socket`.
    pub socket: String,
}

impl ProcessDirectory {
    /// The paths agree: lock and socket both live under the directory.
    pub open spec fn wf(&self) -> bool {
        &&& self.lock@ == lock_file_path(self.path@)
        &&& self.socket@ == socket_file_path(self.path@)
        &&& is_absolute(self.path@)
    }

    /// Resolve the endpoint `name` under the temporary directory `tmp`.
    /// `tmp_exists` and `tmp_is_dir` report what the caller observed of
    /// `tmp`; resolution fails with a directory error when the temporary
    /// directory is unusable or the joined path is not absolute. The caller
    /// creates the directory afterwards if it is absent.
    pub fn new(name: &str, tmp: &str, tmp_exists: bool, tmp_is_dir: bool) -> (r: Result<
        Self,
        Error,
    >)
        ensures
            match r {
                Ok(d) => {
                    &&& tmp_exists
                    &&& tmp_is_dir
                    &&& is_absolute(endpoint_path(tmp@, name@))
                    &&& d.path@ == endpoint_path(tmp@, name@)
                    &&& d.wf()
                },
                Err(e) => {
                    &&& (!tmp_exists || !tmp_is_dir || !is_absolute(endpoint_path(tmp@, name@)))
                    &&& e matches Error::ProcessDirectory(_)
                },
            },
    {
        if !tmp_exists {
            return Err(Error::ProcessDirectory(String::from_str("invalid temporary directory")));
        }
        if !tmp_is_dir {
            return Err(
                Error::ProcessDirectory(
                    String::from_str("temporary directory is not a directory"),
                ),
            );
        }
        let mut path = String::from_str(tmp);
        path.append("/");
        path.append(name);
        if path.as_str().unicode_len() == 0 || path.as_str().get_char(0) != '/' {
            return Err(Error::ProcessDirectory(String::from_str("endpoint path must be absolute")));
        }
        let mut lock = path.clone();
        lock.append("/lock");
        let mut socket = path.clone();
        socket.append("/socket");
        Ok(ProcessDirectory { path, lock, socket })
    }

    /// The endpoint directory path.
    pub fn path(&self) -> (r: &String)
        ensures
            r@ == self.path@,
    {
        &self.path
    }

    /// The lock file path.
    pub fn lockfile(&self) -> (r: &String)
        ensures
            r@ == self.lock@,
    {
        &self.lock
    }

    /// The socket file path.
    pub fn socket(&self) -> (r: &String)
        ensures
            r@ == self.socket@,
    {
        &self.socket
    }

    /// Apply the locking rule to the observed state `fs`. Fails with a
    /// directory error when a different process id is recorded; otherwise any
    /// stale lock file is replaced and the caller's process id is recorded.
    /// The caller mirrors the resulting state on disk, flushing the new lock
    /// file durably before proceeding.
    pub fn lock(&self, fs: &mut EndpointState, caller: u32) -> (r: Result<(), Error>)
        ensures
            *final(fs) == lock_step(*old(fs), caller),
            r is Ok <==> lock_allowed(*old(fs), caller),
            r matches Err(e) ==> e matches Error::ProcessDirectory(_),
    {
        match fs.lock {
            LockContent::Pid(p) if p != caller => {
                Err(Error::ProcessDirectory(String::from_str("endpoint directory is locked by another process")))
            },
            _ => {
                fs.lock = LockContent::Pid(caller);
                Ok(())
            },
        }
    }

    /// Apply the closing rule to the observed state `fs`: the lock file, the
    /// socket file and the directory are removed only when the lock file
    /// records the caller's own process id; otherwise nothing happens. The
    /// caller mirrors the resulting state on disk.
    pub fn close(&self, fs: &mut EndpointState, caller: u32)
        ensures
            *final(fs) == close_step(*old(fs), caller),
    {
        let owned = match fs.lock {
            LockContent::Pid(p) => p == caller,
            _ => false,
        };
        if owned {
            fs.dir_present = false;
            fs.lock = LockContent::Missing;
            fs.socket_present = false;
        }
    }

    /// The client-side precondition check: the socket file must exist, and
    /// the locking rule must deny the caller the lock, proving that a live
    /// server holds the endpoint. Each failure is a distinct client error.
    /// The probe only evaluates the rule — a client holds a non-owning,
    /// read-only view of the endpoint and never acquires the lock itself,
    /// so the observed state is taken by shared reference and left as it
    /// is.
    pub fn client_bootstrap(&self, fs: &EndpointState, caller: u32) -> (r: Result<(), Error>)
        ensures
            !fs.socket_present ==> (r matches Err(e) && e matches Error::Client(m) && m@
                == msg_socket_missing()),
            fs.socket_present && lock_allowed(*fs, caller) ==> (r matches Err(e) && e matches
                Error::Client(m) && m@ == msg_not_locked()),
            fs.socket_present && !lock_allowed(*fs, caller) ==> r is Ok,
    {
        if !fs.socket_present {
            return Err(Error::Client(String::from_str("socket file does not exist")));
        }
        let contended = match fs.lock {
            LockContent::Pid(p) => p != caller,
            _ => false,
        };
        if contended {
            Ok(())
        } else {
            Err(Error::Client(String::from_str("endpoint directory is not locked by a server")))
        }
    }
}

/// Locking is idempotent for one process id and exclusive against all
/// others: after a successful lock by `caller`, a second lock by `caller`
/// succeeds, while a lock by any different process id fails.
pub proof fn lemma_lock_idempotent_and_exclusive(fs: EndpointState, caller: u32, other: u32)
    requires
        lock_allowed(fs, caller),
    ensures
        lock_allowed(lock_step(fs, caller), caller),
        lock_step(lock_step(fs, caller), caller) == lock_step(fs, caller),
        other != caller ==> !lock_allowed(lock_step(fs, caller), other),
{
}

/// Closing by a process id that is not the recorded owner changes nothing:
/// the directory, the lock file and the socket file all remain as they were.
pub proof fn lemma_close_non_owner_no_op(fs: EndpointState, caller: u32)
    requires
        fs.lock != LockContent::Pid(caller),
    ensures
        close_step(fs, caller) == fs,
{
}

/// The two client bootstrap failures are distinct errors: a missing socket
/// file is reported differently from an endpoint that no server holds.
pub proof fn lemma_bootstrap_errors_differ()
    ensures
        msg_socket_missing() != msg_not_locked(),
{
    reveal_strlit("socket file does not exist");
    reveal_strlit("endpoint directory is not locked by a server");
    assert(msg_socket_missing().len() != msg_not_locked().len());
}

/// Whether a byte is an ASCII decimal digit.
pub open spec fn is_digit(b: u8) -> bool {
    48 <= b <= 57
}

/// Whether every byte of `s` is an ASCII decimal digit.
pub open spec fn all_digits(s: Seq<u8>) -> bool {
    forall|i: int| 0 <= i < s.len() ==> is_digit(#[trigger] s[i])
}

/// The numeric value of a sequence of ASCII decimal digits.
pub open spec fn digits_value(s: Seq<u8>) -> int
    decreases s.len(),
{
    if s.len() == 0 {
        0
    } else {
        digits_value(s.drop_last()) * 10 + (s.last() - 48)
    }
}

/// The value of a digit sequence is never negative.
proof fn lemma_digits_value_nonneg(s: Seq<u8>)
    requires
        all_digits(s),
    ensures
        digits_value(s) >= 0,
    decreases s.len(),
{
    if s.len() > 0 {
        assert(all_digits(s.drop_last())) by {
            assert(forall|i: int|
                0 <= i < s.len() - 1 ==> #[trigger] s.drop_last()[i] == s[i]);
        }
        lemma_digits_value_nonneg(s.drop_last());
    }
}

/// Extending a digit prefix by one digit multiplies its value by ten and
/// adds the new digit.
proof fn lemma_digits_value_take_succ(s: Seq<u8>, i: int)
    requires
        0 <= i < s.len(),
    ensures
        digits_value(s.take(i + 1)) == digits_value(s.take(i)) * 10 + (s[i] - 48),
{
    assert(s.take(i + 1).drop_last() =~= s.take(i));
    assert(s.take(i + 1).last() == s[i]);
}

/// The value of a full digit sequence is at least the value of any prefix.
proof fn lemma_digits_value_prefix_le(s: Seq<u8>, i: int)
    requires
        all_digits(s),
        0 <= i <= s.len(),
    ensures
        digits_value(s) >= digits_value(s.take(i)),
    decreases s.len() - i,
{
    if i == s.len() {
        assert(s.take(i) =~= s);
    } else {
        lemma_digits_value_take_succ(s, i);
        assert(all_digits(s.take(i))) by {
            assert(forall|j: int| 0 <= j < i ==> #[trigger] s.take(i)[j] == s[j]);
        }
        lemma_digits_value_nonneg(s.take(i));
        lemma_digits_value_prefix_le(s, i + 1);
    }
}

/// Parse the decimal process id stored in a lock file. Fails with a
/// directory error when the text is empty, holds any non-digit byte, or
/// denotes a value too large for a process id.
pub fn parse_pid(s: &[u8]) -> (r: Result<u32, Error>)
    ensures
        match r {
            Ok(p) => all_digits(s@) && s@.len() >= 1 && digits_value(s@) == p,
            Err(e) => {
                &&& (!all_digits(s@) || s@.len() == 0 || digits_value(s@) > u32::MAX)
                &&& e matches Error::ProcessDirectory(_)
            },
        },
{
    if s.len() == 0 {
        return Err(Error::ProcessDirectory(String::from_str("empty pid in lock file")));
    }
    let mut val: u32 = 0;
    let mut i: usize = 0;
    while i < s.len()
        invariant
            i <= s@.len(),
            all_digits(s@.take(i as int)),
            digits_value(s@.take(i as int)) == val,
        decreases s@.len() - i,
    {
        let b = *slice_index_get(s, i);
        if b < 48 || b > 57 {
            proof {
                assert(!is_digit(s@[i as int]));
            }
            return Err(Error::ProcessDirectory(String::from_str("invalid pid in lock file")));
        }
        let d = (b - 48) as u32;
        if val > (u32::MAX - d) / 10 {
            proof {
                lemma_digits_value_take_succ(s@, i as int);
                if all_digits(s@) {
                    lemma_digits_value_prefix_le(s@, i as int + 1);
                }
            }
            return Err(Error::ProcessDirectory(String::from_str("pid out of range in lock file")));
        }
        proof {
            lemma_digits_value_take_succ(s@, i as int);
            assert forall|j: int| 0 <= j < i + 1 implies is_digit(#[trigger] s@.take(
                i as int + 1,
            )[j]) by {
                assert(s@.take(i as int + 1)[j] == s@[j]);
                if j < i {
                    assert(s@.take(i as int)[j] == s@[j]);
                }
            }
        }
        val = val * 10 + d;
        i = i + 1;
    }
    proof {
        assert(s@.take(s@.len() as int) =~= s@);
    }
    Ok(val)
}

/// Render a process id as decimal text, the form stored in a lock file: at
/// least one digit, no leading zero unless the value itself is zero.
pub fn format_pid(p: u32) -> (r: Vec<u8>)
    ensures
        all_digits(r@),
        r@.len() >= 1,
        digits_value(r@) == p,
        r@.len() > 1 ==> r@[0] != 48,
    decreases p,
{
    if p < 10 {
        let mut v: Vec<u8> = Vec::new();
        v.push(48 + p as u8);
        proof {
            assert(digits_value(Seq::<u8>::empty()) == 0);
            assert(v@.drop_last() =~= Seq::<u8>::empty());
            assert(digits_value(v@) == digits_value(v@.drop_last()) * 10 + (v@.last() - 48));
        }
        v
    } else {
        let mut v = format_pid(p / 10);
        let ghost prefix = v@;
        let d = 48 + (p % 10) as u8;
        v.push(d);
        proof {
            assert(v@.drop_last() =~= prefix);
            assert(digits_value(v@) == digits_value(prefix) * 10 + (d - 48));
            assert(digits_value(prefix) == p / 10 && p / 10 * 10 + p % 10 == p);
            assert forall|j: int| 0 <= j < v@.len() implies is_digit(#[trigger] v@[j]) by {
                if j < prefix.len() {
                    assert(v@[j] == prefix[j]);
                }
            }
            if prefix.len() == 1 {
                assert(digits_value(Seq::<u8>::empty()) == 0);
                assert(prefix.drop_last() =~= Seq::<u8>::empty());
                assert(digits_value(prefix) == digits_value(prefix.drop_last()) * 10 + (
                prefix.last() - 48));
                assert(prefix[0] - 48 == p / 10 && p / 10 >= 1);
            }
        }
        v
    }
}

} // verus!
