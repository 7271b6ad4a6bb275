//! Error numbers of the operating system.

use vstd::prelude::*;

verus! {

/// Reads `libc::ENOENT`, which is 2 on every system that has a FUSE driver
/// (Linux, Android, the BSDs and macOS).
#[verifier::external_body]
fn libc_enoent() -> (code: i32)
    ensures
        code == 2,
{
    libc::ENOENT
}

/// Reads `libc::EINTR`, which is 4 on every system that has a FUSE driver
/// (Linux, Android, the BSDs and macOS).
#[verifier::external_body]
fn libc_eintr() -> (code: i32)
    ensures
        code == 4,
{
    libc::EINTR
}

/// Reads `libc::EAGAIN`, which is 11 on Linux and Android, and 35 on the BSDs
/// and macOS.
#[verifier::external_body]
fn libc_eagain() -> (code: i32)
    ensures
        code == 11 || code == 35,
{
    libc::EAGAIN
}

/// Reads `libc::EACCES`, which is 13 on every system that has a FUSE driver
/// (Linux, Android, the BSDs and macOS).
#[verifier::external_body]
fn libc_eacces() -> (code: i32)
    ensures
        code == 13,
{
    libc::EACCES
}

/// Reads `libc::ENODEV`, which is 19 on every system that has a FUSE driver
/// (Linux, Android, the BSDs and macOS).
#[verifier::external_body]
fn libc_enodev() -> (code: i32)
    ensures
        code == 19,
{
    libc::ENODEV
}

/// The error numbers that a session tells apart.
#[derive(Clone, Copy, Debug, PartialEq, Eq, Structural)]
pub struct Errnos {
    /// No such entry; from a receive, that the operation was interrupted.
    pub enoent: i32,
    /// The system call was interrupted.
    pub eintr: i32,
    /// Try again.
    pub eagain: i32,
    /// Permission denied.
    pub eacces: i32,
    /// The filesystem is not, or no longer, mounted.
    pub enodev: i32,
}

/// What follows a failure to receive a request.
#[derive(Clone, Copy, Debug, PartialEq, Eq, Structural)]
pub enum AfterFailure {
    /// Receive again.
    Retry,
    /// Serve no more requests: the filesystem was unmounted.
    Quit,
    /// Hand the failure to the caller.
    Fail,
}

impl Errnos {
    /// The numbers are those of a system with a FUSE driver.
    pub open spec fn wf(self) -> bool {
        &&& self.enoent == 2
        &&& self.eintr == 4
        &&& self.eagain == 11 || self.eagain == 35
        &&& self.eacces == 13
        &&& self.enodev == 19
    }

    /// A failure with this number is one to retry.
    pub open spec fn retries(self, errno: Option<i32>) -> bool {
        errno == Some(self.enoent) || errno == Some(self.eintr) || errno == Some(self.eagain)
    }

    /// What follows a failure with this number, or with none.
    pub open spec fn after_failure(self, errno: Option<i32>) -> AfterFailure {
        if self.retries(errno) {
            AfterFailure::Retry
        } else if errno == Some(self.enodev) {
            AfterFailure::Quit
        } else {
            AfterFailure::Fail
        }
    }

    /// The numbers of the running system.
    pub fn host() -> (errnos: Errnos)
        ensures
            errnos.wf(),
            errnos.enoent == 2,
            errnos.eintr == 4,
            errnos.eagain == 11 || errnos.eagain == 35,
            errnos.eacces == 13,
            errnos.enodev == 19,
    {
        Errnos {
            enoent: libc_enoent(),
            eintr: libc_eintr(),
            eagain: libc_eagain(),
            eacces: libc_eacces(),
            enodev: libc_enodev(),
        }
    }

    /// Decides what follows a failure to receive a request. `errno` is absent
    /// where the failure has no number of the operating system.
    pub fn receive_failed(self, errno: Option<i32>) -> (next: AfterFailure)
        ensures
            next == self.after_failure(errno),
            next == AfterFailure::Retry <==> (errno == Some(self.enoent) || errno == Some(
                self.eintr,
            ) || errno == Some(self.eagain)),
            next == AfterFailure::Quit <==> (errno == Some(self.enodev) && self.enodev
                != self.enoent && self.enodev != self.eintr && self.enodev != self.eagain),
    {
        match errno {
            // Operation interrupted. Accordingly to FUSE, this is safe to retry
            Some(code) if code == self.enoent => AfterFailure::Retry,
            // Interrupted system call, retry
            Some(code) if code == self.eintr => AfterFailure::Retry,
            // Explicitly try again
            Some(code) if code == self.eagain => AfterFailure::Retry,
            // Filesystem was unmounted, quit the loop
            Some(code) if code == self.enodev => AfterFailure::Quit,
            // Unhandled error
            _ => AfterFailure::Fail,
        }
    }
}

/// Which failure has which meaning, by its number alone: 2, 4 and the number of
/// `EAGAIN` are retried, 19 ends the loop, and a failure with any other number,
/// or with none, is handed on.
pub proof fn failures_by_their_number(errnos: Errnos, errno: Option<i32>)
    requires
        errnos.enoent == 2,
        errnos.eintr == 4,
        errnos.eagain == 11 || errnos.eagain == 35,
        errnos.enodev == 19,
    ensures
        errno == Some(2i32) || errno == Some(4i32) || errno == Some(errnos.eagain)
            ==> errnos.after_failure(errno) == AfterFailure::Retry,
        errno == Some(19i32) ==> errnos.after_failure(errno) == AfterFailure::Quit,
        errno is None ==> errnos.after_failure(errno) == AfterFailure::Fail,
        errno matches Some(code) && code != 2 && code != 4 && code != 19 && code != errnos.eagain
            ==> errnos.after_failure(errno) == AfterFailure::Fail,
{
}

/// The error numbers differ from one another, so each failure has one meaning:
/// `ENOENT`, `EINTR` and `EAGAIN` are retried, `ENODEV` ends the loop, and every
/// other failure is handed on, one without a number too.
pub proof fn failures_have_one_meaning(errnos: Errnos, errno: Option<i32>)
    requires
        errnos.wf(),
    ensures
        errnos.after_failure(errno) == AfterFailure::Retry <==> errnos.retries(errno),
        errnos.after_failure(errno) == AfterFailure::Quit <==> errno == Some(errnos.enodev),
        errnos.after_failure(errno) == AfterFailure::Fail <==> (errno is None || !errnos.retries(
            errno,
        ) && errno != Some(errnos.enodev)),
{
}

} // verus!
