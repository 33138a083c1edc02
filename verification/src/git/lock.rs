//! Cross-process lock for serializing `.git/config` writes.
//!
//! `git config` acquires `config.lock` with `O_EXCL` and no retry, so concurrent processes
//! racing to create worktrees in the same repository fail with "could not lock config
//! file". An advisory lock on a sidecar file, held around the git calls that write the
//! configuration, serializes them.

use vstd::prelude::*;

verus! {

/// The name of the sidecar file.
pub const LOCK_FILE_NAME: &'static str = "workmux.lock";

/// The bytes of the sidecar file's name.
pub open spec fn lock_file_bytes() -> Seq<u8> {
    vstd::utf8::encode_utf8(LOCK_FILE_NAME@)
}

/// The byte between the parts of a path, a slash.
pub const SEPARATOR: u8 = 47;

/// A directory as the beginning of a path: with a separator at its end, unless it is the
/// empty path.
pub open spec fn as_prefix(dir: Seq<u8>) -> Seq<u8> {
    if dir.len() == 0 || dir.last() == SEPARATOR {
        dir
    } else {
        dir.push(SEPARATOR)
    }
}

/// The path of the sidecar file in a directory.
pub open spec fn sidecar(dir: Seq<u8>) -> Seq<u8> {
    as_prefix(dir) + lock_file_bytes()
}

/// The path of the sidecar file of a repository, in a file system whose paths are bytes.
/// The directory is the common git directory, so that all worktrees of one repository
/// share one file.
pub fn lock_path(git_common_dir: &[u8]) -> (r: Vec<u8>)
    ensures
        r@ == sidecar(git_common_dir@),
{
    let mut r: Vec<u8> = Vec::new();
    for i in 0..git_common_dir.len()
        invariant
            r@ == git_common_dir@.take(i as int),
    {
        r.push(git_common_dir[i]);
        assert(r@ =~= git_common_dir@.take(i + 1));
    }
    assert(r@ =~= git_common_dir@);
    let n = r.len();
    if n > 0 && r[n - 1] != SEPARATOR {
        r.push(SEPARATOR);
    }
    let name = LOCK_FILE_NAME.as_bytes();
    let ghost prefix = r@;
    for i in 0..name.len()
        invariant
            r@ == prefix + name@.take(i as int),
    {
        r.push(name[i]);
        assert(r@ =~= prefix + name@.take(i + 1));
    }
    assert(name@.take(name.len() as int) =~= name@);
    r
}

/// Why the lock could not be had.
#[derive(Debug, Clone, Copy, PartialEq, Eq, Structural)]
pub enum LockFailure {
    /// The sidecar file could not be created.
    Create,
    /// The sidecar file could not be locked.
    Lock,
}

impl LockFailure {
    /// The message that stands in front of the system's own error.
    pub fn message(&self, path: &str) -> (r: String)
        ensures
            r@ == match self {
                LockFailure::Create => "Failed to create lock file "@ + path@,
                LockFailure::Lock => "flock("@ + path@ + ") failed"@,
            },
    {
        match self {
            LockFailure::Create => "Failed to create lock file ".to_owned().concat(path),
            LockFailure::Lock => "flock(".to_owned().concat(path).concat(") failed"),
        }
    }
}

/// How far the taking of the lock has come.
#[derive(Debug, Clone, Copy, PartialEq, Eq, Structural)]
pub enum LockState {
    /// The sidecar file is to be created.
    Create,
    /// The sidecar file is to be locked, which may block.
    Lock,
    /// The lock is held.
    Held,
    /// The lock cannot be had.
    Failed(LockFailure),
}

impl LockState {
    /// The state after what this one asks for went well or badly. Where there are no
    /// advisory locks, the created file is enough.
    pub open spec fn after(self, succeeded: bool, advisory: bool) -> LockState {
        match self {
            LockState::Create => if !succeeded {
                LockState::Failed(LockFailure::Create)
            } else if advisory {
                LockState::Lock
            } else {
                LockState::Held
            },
            LockState::Lock => if succeeded {
                LockState::Held
            } else {
                LockState::Failed(LockFailure::Lock)
            },
            _ => self,
        }
    }

    /// Goes on after what this state asks for went well or badly. `advisory` tells whether
    /// the platform has advisory locks.
    pub fn next(self, succeeded: bool, advisory: bool) -> (r: LockState)
        ensures
            r == self.after(succeeded, advisory),
    {
        match self {
            LockState::Create => if !succeeded {
                LockState::Failed(LockFailure::Create)
            } else if advisory {
                LockState::Lock
            } else {
                LockState::Held
            },
            LockState::Lock => if succeeded {
                LockState::Held
            } else {
                LockState::Failed(LockFailure::Lock)
            },
            _ => self,
        }
    }
}

/// Where there are advisory locks, the lock is held exactly when the file was created and
/// then locked, and a failure says which of the two went wrong first.
pub proof fn law_held_after_create_and_lock(created: bool, locked: bool)
    ensures
        ({
            let end = LockState::Create.after(created, true).after(locked, true);
            &&& end == LockState::Held <==> created && locked
            &&& end == LockState::Failed(LockFailure::Create) <==> !created
            &&& end == LockState::Failed(LockFailure::Lock) <==> created && !locked
        }),
{
}

/// Two directories have the same sidecar file only if they are the same, but for a
/// separator at the end.
pub proof fn law_sidecar_tells_directories_apart(a: Seq<u8>, b: Seq<u8>)
    requires
        sidecar(a) == sidecar(b),
    ensures
        a == b || a == b.push(SEPARATOR) || b == a.push(SEPARATOR),
{
    let p = as_prefix(a);
    let q = as_prefix(b);
    assert(sidecar(a).len() == p.len() + lock_file_bytes().len());
    assert(sidecar(b).len() == q.len() + lock_file_bytes().len());
    assert forall|i: int| 0 <= i < p.len() implies p[i] == q[i] by {
        assert(sidecar(a)[i] == p[i]);
        assert(sidecar(b)[i] == q[i]);
    }
    assert(p =~= q);
    assert(a.push(SEPARATOR).drop_last() =~= a);
    assert(b.push(SEPARATOR).drop_last() =~= b);
}

/// The lock file lies in the directory: its path is that of the directory, one separator,
/// which is not repeated where the directory ends in one, and the file's name. The empty
/// path gets none, so that the file stays relative.
pub proof fn law_lock_file_lies_in_the_directory(dir: &[u8], r: Vec<u8>)
    requires
        call_ensures(lock_path, (dir,), r),
    ensures
        r@.len() >= dir@.len(),
        r@.take(dir@.len() as int) == dir@,
        dir@.len() == 0 || dir@.last() == 47u8 ==> r@.skip(dir@.len() as int)
            == vstd::utf8::encode_utf8("workmux.lock"@),
        dir@.len() > 0 && dir@.last() != 47u8 ==> r@.skip(dir@.len() as int) == seq![47u8]
            + vstd::utf8::encode_utf8("workmux.lock"@),
{
    assert(r@.take(dir@.len() as int) =~= dir@);
    if dir@.len() == 0 || dir@.last() == 47u8 {
        assert(r@.skip(dir@.len() as int) =~= lock_file_bytes());
    } else {
        assert(r@.skip(dir@.len() as int) =~= seq![47u8] + lock_file_bytes());
    }
}

/// A state goes on only as long as there is something to do, and never passes over the
/// locking where there are advisory locks.
pub proof fn law_lock_state_goes_step_by_step(
    state: LockState,
    succeeded: bool,
    advisory: bool,
    r: LockState,
)
    requires
        call_ensures(LockState::next, (state, succeeded, advisory), r),
    ensures
        state is Held || state is Failed ==> r == state,
        (state is Create || state is Lock) && !succeeded ==> r is Failed,
        state is Create && !succeeded ==> r == LockState::Failed(LockFailure::Create),
        state is Lock && !succeeded ==> r == LockState::Failed(LockFailure::Lock),
        state is Create && succeeded ==> (r is Lock <==> advisory) && (r is Held <==> !advisory),
        state is Lock && succeeded ==> r is Held,
{
}

/// The message of a failure names the lock file.
pub proof fn law_lock_failure_names_the_file(failure: &LockFailure, path: &str, r: String)
    requires
        call_ensures(LockFailure::message, (failure, path), r),
    ensures
        *failure is Create ==> r@ == "Failed to create lock file "@ + path@,
        *failure is Lock ==> r@ == "flock("@ + path@ + ") failed"@,
{
}

} // verus!
