//! Raw descriptors, the conversion traits, and the owned-descriptor guard.
//!
//! A [`RawFd`] is a bare signed integer with no ownership semantics; `-1`
//! (the all-ones unsigned value) is the reserved invalid sentinel that
//! syscalls return on failure and that no open descriptor may carry. An
//! [`OwnedFd`] wraps exactly one open descriptor and is the single owner of
//! the duty to close it: closing is explicit, happens at most once (the
//! guard is consumed by it), and its return code is discarded — a retry on
//! an interrupted close could close an unrelated descriptor that has since
//! reused the same integer, so no retry is ever made. Detaching the raw
//! value out of the guard cancels the close duty and hands it to the
//! caller.

use vstd::prelude::*;

use crate::netstack::{close_count, lemma_close_count_push, Call, Netstack};

verus! {

/// The underlying integer representation of an OS-level descriptor.
pub type RawFd = i32;

/// The reserved invalid descriptor value: no open descriptor carries it.
pub const INVALID_FD: RawFd = -1;

/// Borrow the raw descriptor value without transferring ownership. The
/// caller must not close or otherwise release the returned value.
pub trait AsRawFd {
    /// The raw descriptor value this object designates.
    spec fn raw_fd(&self) -> RawFd;

    /// Returns the raw descriptor value; ownership stays where it was.
    fn as_raw_fd(&self) -> (r: RawFd)
        ensures
            r == self.raw_fd(),
    ;
}

/// Consume the owner and take the raw descriptor value out of it,
/// cancelling any automatic release: the caller now bears the duty to
/// close the descriptor.
pub trait IntoRawFd: AsRawFd {
    /// Returns the raw descriptor value and suppresses the close the
    /// consumed owner would otherwise have performed.
    fn into_raw_fd(self) -> (r: RawFd)
        ensures
            r == self.raw_fd(),
    ;
}

/// Adopt a raw descriptor value as owned. The caller must guarantee that
/// the value currently designates an open resource requiring no cleanup
/// other than the close syscall; the reserved invalid sentinel is rejected
/// by precondition.
pub trait FromRawFd: AsRawFd + Sized {
    /// Adopts `fd` as an owned descriptor.
    fn adopt_raw_fd(fd: RawFd) -> (r: Self)
        requires
            fd != INVALID_FD,
        ensures
            r.raw_fd() == fd,
    ;
}

impl AsRawFd for RawFd {
    open spec fn raw_fd(&self) -> RawFd {
        *self
    }

    fn as_raw_fd(&self) -> RawFd {
        *self
    }
}

impl IntoRawFd for RawFd {
    fn into_raw_fd(self) -> RawFd {
        self
    }
}

impl FromRawFd for RawFd {
    fn adopt_raw_fd(fd: RawFd) -> RawFd {
        fd
    }
}

/// The owned-descriptor guard: wraps exactly one open descriptor and is
/// responsible for closing it exactly once.
#[derive(Debug)]
pub struct OwnedFd {
    fd: RawFd,
}

impl OwnedFd {
    /// An owned descriptor never carries the invalid sentinel.
    pub open spec fn wf(&self) -> bool {
        self.raw_fd() != INVALID_FD
    }

    /// Releases the descriptor: invokes the close syscall exactly once and
    /// discards its return code. No retry is made on any failure, `EINTR`
    /// included: after an interrupted close the descriptor's state is
    /// platform-dependent, and a retried close could close an unrelated
    /// descriptor that has since reused the same integer value.
    pub fn close(self, net: &mut Netstack)
        ensures
            final(net).log() == old(net).log().push(Call::Close { fd: self.raw_fd() }),
            final(net).script() == old(net).script(),
    {
        net.sock_close(self.fd);
    }
}

impl AsRawFd for OwnedFd {
    closed spec fn raw_fd(&self) -> RawFd {
        self.fd
    }

    fn as_raw_fd(&self) -> RawFd {
        self.fd
    }
}

impl IntoRawFd for OwnedFd {
    fn into_raw_fd(self) -> RawFd {
        self.fd
    }
}

impl FromRawFd for OwnedFd {
    fn adopt_raw_fd(fd: RawFd) -> OwnedFd {
        OwnedFd { fd }
    }
}

/// A file descriptor owned by this process, as a distinct type from the
/// socket wrapper built on it.
#[derive(Debug)]
pub struct FileDesc(OwnedFd);

impl FileDesc {
    /// An owned file descriptor never carries the invalid sentinel.
    pub open spec fn wf(&self) -> bool {
        self.raw_fd() != INVALID_FD
    }

    /// Releases the descriptor: one close syscall, return code discarded.
    pub fn close(self, net: &mut Netstack)
        ensures
            final(net).log() == old(net).log().push(Call::Close { fd: self.raw_fd() }),
            final(net).script() == old(net).script(),
    {
        self.0.close(net);
    }
}

impl AsRawFd for FileDesc {
    closed spec fn raw_fd(&self) -> RawFd {
        self.0.raw_fd()
    }

    fn as_raw_fd(&self) -> RawFd {
        self.0.as_raw_fd()
    }
}

impl IntoRawFd for FileDesc {
    fn into_raw_fd(self) -> RawFd {
        self.0.into_raw_fd()
    }
}

impl FromRawFd for FileDesc {
    fn adopt_raw_fd(fd: RawFd) -> FileDesc {
        FileDesc(OwnedFd::adopt_raw_fd(fd))
    }
}

/// Adopting a descriptor and then releasing its guard closes it exactly
/// once — never zero times, never twice: the single close call the guard
/// records raises that descriptor's close count by exactly one, and no
/// other descriptor's at all.
pub proof fn lemma_adopt_then_close_closes_once(log: Seq<Call>, fd: RawFd)
    ensures
        close_count(log.push((Call::Close { fd })), fd) == close_count(log, fd) + 1,
        forall|g: RawFd|
            g != fd ==> close_count(log.push((Call::Close { fd })), g) == close_count(log, g),
{
    lemma_close_count_push(log, Call::Close { fd }, fd);
    assert forall|g: RawFd|
        g != fd implies close_count(log.push((Call::Close { fd })), g) == close_count(
        log,
        g,
    ) by {
        lemma_close_count_push(log, Call::Close { fd }, g);
    }
}

} // verus!
