//! A scripted stand-in for the raw socket syscall surface.
//!
//! The kernel behind the syscalls is an external collaborator: the layer
//! above only ever sees the signed return codes it hands back. A
//! [`Netstack`] makes that interaction explicit. It holds a finite script
//! of return codes, hands them out one per syscall, and records every call
//! it was asked to make. Contracts over the recorded log are how the
//! ownership and retry policies of this crate are stated and proved: a
//! guarantee such as "close is invoked exactly once" is a statement about
//! `log()`, quantified over every script the kernel could answer with.
//!
//! The close syscall is the one exception to the one-code-per-call rule:
//! its return code is discarded by every caller in this design, so the
//! model does not consume a scripted code for it — it only records that
//! the call was made.

use vstd::prelude::*;

use crate::fd::RawFd;

verus! {

/// Address family tag for IPv4 sockets.
pub const AF_INET: i32 = 1;

/// Address family tag for IPv6 sockets.
pub const AF_INET6: i32 = 2;

/// Stream (connection-oriented) socket type.
pub const SOCK_STREAM: i32 = 1;

/// Option level addressing the socket layer itself.
pub const SOL_SOCKET: i32 = 1;

/// Option: allow reuse of local addresses.
pub const SO_REUSEADDR: i32 = 2;

/// Errno: the call was interrupted before doing anything observable.
pub const EINTR: i32 = 4;

/// Errno: the socket is already connected.
pub const EISCONN: i32 = 127;

/// One invocation of a raw syscall, with the arguments the layer is
/// responsible for: descriptors, family and type tags, option values, and
/// the byte length accompanying every address argument.
#[derive(Clone, Copy, Debug, PartialEq, Eq, Structural)]
pub enum Call {
    /// Create a socket of the given family, type and protocol.
    Socket { family: i32, sock_type: i32, proto: i32 },
    /// Set an integer-valued socket option.
    Setsockopt { fd: RawFd, level: i32, name: i32, value: i32 },
    /// Bind to an address given as `len` raw bytes.
    Bind { fd: RawFd, len: usize },
    /// Start listening with the given backlog.
    Listen { fd: RawFd, backlog: i32 },
    /// Connect to an address given as `len` raw bytes.
    Connect { fd: RawFd, len: usize },
    /// Accept one connection on a listening socket.
    Accept { fd: RawFd },
    /// Send `len` bytes on a connected socket.
    Send { fd: RawFd, len: usize },
    /// Close the descriptor; the return code is discarded.
    Close { fd: RawFd },
}

/// How many times `log` records a close of descriptor `fd`.
pub open spec fn close_count(log: Seq<Call>, fd: RawFd) -> nat
    decreases log.len(),
{
    if log.len() == 0 {
        0
    } else {
        close_count(log.drop_last(), fd) + if log.last() == (Call::Close { fd }) {
            1nat
        } else {
            0nat
        }
    }
}

/// Appending one call changes `close_count` by one exactly for a close of
/// the appended descriptor, and for no other descriptor and no other call.
pub proof fn lemma_close_count_push(log: Seq<Call>, c: Call, fd: RawFd)
    ensures
        close_count(log.push(c), fd) == close_count(log, fd) + if c == (Call::Close { fd }) {
            1nat
        } else {
            0nat
        },
{
    assert(log.push(c).drop_last() =~= log);
}

/// `close_count` distributes over concatenation of logs.
pub proof fn lemma_close_count_add(a: Seq<Call>, b: Seq<Call>, fd: RawFd)
    ensures
        close_count(a + b, fd) == close_count(a, fd) + close_count(b, fd),
    decreases b.len(),
{
    if b.len() == 0 {
        assert(a + b =~= a);
    } else {
        lemma_close_count_add(a, b.drop_last(), fd);
        assert((a + b).drop_last() =~= a + b.drop_last());
        assert((a + b).last() == b.last());
    }
}

/// The raw syscall surface, scripted: `script` holds the return codes the
/// kernel will answer with, front first, and `log` records every call made.
pub struct Netstack {
    script: Vec<i32>,
    log: Vec<Call>,
}

impl Netstack {
    /// The return codes not yet handed out, front first.
    pub closed spec fn script(&self) -> Seq<i32> {
        self.script@
    }

    /// Every syscall invoked so far, in order.
    pub closed spec fn log(&self) -> Seq<Call> {
        self.log@
    }

    /// A fresh surface that will answer with `script` and has made no calls.
    pub fn new(script: Vec<i32>) -> (r: Netstack)
        ensures
            r.script() == script@,
            r.log() == Seq::<Call>::empty(),
    {
        Netstack { script, log: Vec::new() }
    }

    /// How many scripted return codes are still pending.
    pub fn pending(&self) -> (n: usize)
        ensures
            n == self.script().len(),
    {
        self.script.len()
    }

    /// The calls made so far.
    pub fn calls(&self) -> (r: &Vec<Call>)
        ensures
            r@ == self.log(),
    {
        &self.log
    }

    /// Hands out the next scripted return code.
    fn next_code(&mut self) -> (r: i32)
        requires
            old(self).script().len() > 0,
        ensures
            r == old(self).script()[0],
            final(self).script() == old(self).script().skip(1),
            final(self).log() == old(self).log(),
    {
        let r = self.script.remove(0);
        proof {
            assert(self.script@ =~= old(self).script().skip(1));
        }
        r
    }

    /// The create-socket syscall.
    pub fn sock_socket(&mut self, family: i32, sock_type: i32, proto: i32) -> (r: i32)
        requires
            old(self).script().len() > 0,
        ensures
            r == old(self).script()[0],
            final(self).script() == old(self).script().skip(1),
            final(self).log() == old(self).log().push(Call::Socket { family, sock_type, proto }),
    {
        let r = self.next_code();
        self.log.push(Call::Socket { family, sock_type, proto });
        r
    }

    /// The set-socket-option syscall, for an integer-valued option.
    pub fn sock_setsockopt(&mut self, fd: RawFd, level: i32, name: i32, value: i32) -> (r: i32)
        requires
            old(self).script().len() > 0,
        ensures
            r == old(self).script()[0],
            final(self).script() == old(self).script().skip(1),
            final(self).log() == old(self).log().push(
                Call::Setsockopt { fd, level, name, value },
            ),
    {
        let r = self.next_code();
        self.log.push(Call::Setsockopt { fd, level, name, value });
        r
    }

    /// The bind syscall; `len` is the byte length of the address handed in.
    pub fn sock_bind(&mut self, fd: RawFd, len: usize) -> (r: i32)
        requires
            old(self).script().len() > 0,
        ensures
            r == old(self).script()[0],
            final(self).script() == old(self).script().skip(1),
            final(self).log() == old(self).log().push(Call::Bind { fd, len }),
    {
        let r = self.next_code();
        self.log.push(Call::Bind { fd, len });
        r
    }

    /// The listen syscall.
    pub fn sock_listen(&mut self, fd: RawFd, backlog: i32) -> (r: i32)
        requires
            old(self).script().len() > 0,
        ensures
            r == old(self).script()[0],
            final(self).script() == old(self).script().skip(1),
            final(self).log() == old(self).log().push(Call::Listen { fd, backlog }),
    {
        let r = self.next_code();
        self.log.push(Call::Listen { fd, backlog });
        r
    }

    /// The connect syscall; `len` is the byte length of the address handed in.
    pub fn sock_connect(&mut self, fd: RawFd, len: usize) -> (r: i32)
        requires
            old(self).script().len() > 0,
        ensures
            r == old(self).script()[0],
            final(self).script() == old(self).script().skip(1),
            final(self).log() == old(self).log().push(Call::Connect { fd, len }),
    {
        let r = self.next_code();
        self.log.push(Call::Connect { fd, len });
        r
    }

    /// The accept syscall; a non-negative return is the descriptor of the
    /// accepted peer connection.
    pub fn sock_accept(&mut self, fd: RawFd) -> (r: i32)
        requires
            old(self).script().len() > 0,
        ensures
            r == old(self).script()[0],
            final(self).script() == old(self).script().skip(1),
            final(self).log() == old(self).log().push(Call::Accept { fd }),
    {
        let r = self.next_code();
        self.log.push(Call::Accept { fd });
        r
    }

    /// The send syscall; a non-negative return is the number of bytes sent.
    pub fn sock_send(&mut self, fd: RawFd, len: usize) -> (r: i32)
        requires
            old(self).script().len() > 0,
        ensures
            r == old(self).script()[0],
            final(self).script() == old(self).script().skip(1),
            final(self).log() == old(self).log().push(Call::Send { fd, len }),
    {
        let r = self.next_code();
        self.log.push(Call::Send { fd, len });
        r
    }

    /// The close syscall. Its return code is discarded by every caller in
    /// this layer, so no scripted code is consumed: the call is recorded
    /// and nothing else changes.
    pub fn sock_close(&mut self, fd: RawFd)
        ensures
            final(self).script() == old(self).script(),
            final(self).log() == old(self).log().push(Call::Close { fd }),
    {
        self.log.push(Call::Close { fd });
    }
}

} // verus!
