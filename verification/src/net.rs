//! Socket addresses and the socket wrapper.
//!
//! A [`SocketAddr`] is the tagged union of an IPv4 and an IPv6 socket
//! address, kept as plain bytes and integers. Converting one to the raw C
//! representation yields both the encoded bytes and the byte length that
//! must accompany every address argument of a syscall, and the length is
//! determined by the variant.
//!
//! A [`Socket`] owns exactly one descriptor (through [`FileDesc`]) and
//! routes every syscall return through the uniform policy of [`crate::policy`]:
//! blocking calls (connect, accept, send) retry transparently on `EINTR`,
//! connect remaps `EISCONN` to success, and every other negative return
//! surfaces as a typed [`Error`] carrying the raw code.

use vstd::prelude::*;

use crate::error::{to_result, Error};
use crate::fd::{AsRawFd, FileDesc, FromRawFd, IntoRawFd, RawFd};
use crate::netstack::{Call, Netstack, AF_INET, AF_INET6, EISCONN};
use crate::policy::{
    call_outcome, connect_outcome, decision, decision_index, has_decision, lemma_decision_index,
    policy, spec_is_eintr, Flow,
};

verus! {

/// An IPv4 socket address: four address bytes and a port.
#[derive(Clone, Copy, Debug, PartialEq, Eq)]
pub struct SocketAddrV4 {
    /// The address bytes, most significant first.
    pub addr: [u8; 4],
    /// The port, as a host-order integer.
    pub port: u16,
}

/// An IPv6 socket address: sixteen address bytes, a port, the flow label
/// and the scope.
#[derive(Clone, Copy, Debug, PartialEq, Eq)]
pub struct SocketAddrV6 {
    /// The address bytes, most significant first.
    pub addr: [u8; 16],
    /// The port, as a host-order integer.
    pub port: u16,
    /// The flow information field.
    pub flowinfo: u32,
    /// The scope identifier.
    pub scope_id: u32,
}

/// The tagged union of IPv4 and IPv6 socket addresses.
#[derive(Clone, Copy, Debug, PartialEq, Eq)]
pub enum SocketAddr {
    /// An IPv4 address.
    V4(SocketAddrV4),
    /// An IPv6 address.
    V6(SocketAddrV6),
}

/// A 16-bit value as two bytes in network (big-endian) order.
pub open spec fn be16(x: u16) -> Seq<u8> {
    seq![(x / 256) as u8, (x % 256) as u8]
}

/// A 16-bit value as two bytes, least significant first.
pub open spec fn le16(x: u16) -> Seq<u8> {
    seq![(x % 256) as u8, (x / 256) as u8]
}

/// A 32-bit value as four bytes in network (big-endian) order.
pub open spec fn be32(x: u32) -> Seq<u8> {
    seq![
        (x / 0x1000000) as u8,
        ((x / 0x10000) % 256) as u8,
        ((x / 256) % 256) as u8,
        (x % 256) as u8,
    ]
}

/// A 32-bit value as four bytes, least significant first.
pub open spec fn le32(x: u32) -> Seq<u8> {
    seq![
        (x % 256) as u8,
        ((x / 256) % 256) as u8,
        ((x / 0x10000) % 256) as u8,
        (x / 0x1000000) as u8,
    ]
}

impl SocketAddr {
    /// The address-family tag the variant selects for the syscalls.
    pub open spec fn family(&self) -> i32 {
        match *self {
            SocketAddr::V4(_) => AF_INET,
            SocketAddr::V6(_) => AF_INET6,
        }
    }

    /// The byte length of the raw C representation for this variant.
    pub open spec fn raw_len(&self) -> usize {
        match *self {
            SocketAddr::V4(_) => 8,
            SocketAddr::V6(_) => 28,
        }
    }

    /// The raw C representation: the family tag least-significant-first,
    /// the port in network order, then the variant's payload — for IPv6
    /// the flow information in network order, the address bytes, and the
    /// scope least-significant-first.
    pub open spec fn raw_bytes(&self) -> Seq<u8> {
        match *self {
            SocketAddr::V4(a) => le16(AF_INET as u16) + be16(a.port) + a.addr@,
            SocketAddr::V6(a) => le16(AF_INET6 as u16) + be16(a.port) + be32(a.flowinfo)
                + a.addr@ + le32(a.scope_id),
        }
    }

    /// Encodes the address into its raw C representation; the length of
    /// the returned bytes is the length parameter the syscalls expect.
    pub fn to_raw(&self) -> (r: Vec<u8>)
        ensures
            r@ == self.raw_bytes(),
            r@.len() == self.raw_len(),
    {
        let mut r: Vec<u8> = Vec::new();
        match self {
            SocketAddr::V4(a) => {
                let fam: u16 = AF_INET as u16;
                r.push((fam % 256) as u8);
                r.push((fam / 256) as u8);
                r.push((a.port / 256) as u8);
                r.push((a.port % 256) as u8);
                r.push(a.addr[0]);
                r.push(a.addr[1]);
                r.push(a.addr[2]);
                r.push(a.addr[3]);
                proof {
                    assert(r@ =~= self.raw_bytes());
                }
            },
            SocketAddr::V6(a) => {
                let fam: u16 = AF_INET6 as u16;
                r.push((fam % 256) as u8);
                r.push((fam / 256) as u8);
                r.push((a.port / 256) as u8);
                r.push((a.port % 256) as u8);
                r.push((a.flowinfo / 0x1000000) as u8);
                r.push(((a.flowinfo / 0x10000) % 256) as u8);
                r.push(((a.flowinfo / 256) % 256) as u8);
                r.push((a.flowinfo % 256) as u8);
                let mut i: usize = 0;
                while i < 16
                    invariant
                        0 <= i <= 16,
                        r@ == le16(AF_INET6 as u16) + be16(a.port) + be32(a.flowinfo)
                            + a.addr@.take(i as int),
                    decreases 16 - i,
                {
                    r.push(a.addr[i]);
                    proof {
                        assert(a.addr@.take(i + 1) =~= a.addr@.take(i as int).push(
                            a.addr@[i as int],
                        ));
                        assert(r@ =~= le16(AF_INET6 as u16) + be16(a.port) + be32(a.flowinfo)
                            + a.addr@.take(i + 1));
                    }
                    i = i + 1;
                }
                r.push((a.scope_id % 256) as u8);
                r.push(((a.scope_id / 256) % 256) as u8);
                r.push(((a.scope_id / 0x10000) % 256) as u8);
                r.push((a.scope_id / 0x1000000) as u8);
                proof {
                    assert(a.addr@.take(16) =~= a.addr@);
                    assert(r@ =~= self.raw_bytes());
                }
            },
        }
        r
    }
}

/// A network endpoint owning exactly one descriptor. Its phase — unbound,
/// bound, listening, connected — is not tracked in the type: it follows
/// the underlying syscall state machine through the operations called.
#[derive(Debug)]
pub struct Socket(FileDesc);

impl AsRawFd for Socket {
    closed spec fn raw_fd(&self) -> RawFd {
        self.0.raw_fd()
    }

    fn as_raw_fd(&self) -> RawFd {
        self.0.as_raw_fd()
    }
}

impl IntoRawFd for Socket {
    fn into_raw_fd(self) -> RawFd {
        self.0.into_raw_fd()
    }
}

impl Socket {
    /// A socket never carries the invalid sentinel descriptor.
    pub open spec fn wf(&self) -> bool {
        self.raw_fd() != crate::fd::INVALID_FD
    }

    /// Creates a socket for the family selected by the address variant:
    /// IPv4 selects `AF_INET`, IPv6 selects `AF_INET6`.
    pub fn new(addr: &SocketAddr, ty: i32, net: &mut Netstack) -> (r: Result<Socket, Error>)
        requires
            old(net).script().len() > 0,
        ensures
            final(net).script() == old(net).script().skip(1),
            final(net).log() == old(net).log().push(
                (Call::Socket { family: addr.family(), sock_type: ty, proto: 0 }),
            ),
            match r {
                Ok(s) => old(net).script()[0] >= 0 && s.raw_fd() == old(net).script()[0]
                    && s.wf(),
                Err(e) => old(net).script()[0] < 0 && e == Error(old(net).script()[0]),
            },
    {
        let fam = match *addr {
            SocketAddr::V4(..) => AF_INET,
            SocketAddr::V6(..) => AF_INET6,
        };
        Socket::new_raw(fam, ty, net)
    }

    /// Creates a socket with the create-socket syscall, protocol 0 (the
    /// kernel default for the type). A negative return is surfaced as the
    /// error carrying that return and no socket is produced; a
    /// non-negative return is adopted as the new socket's owned
    /// descriptor.
    pub fn new_raw(fam: i32, ty: i32, net: &mut Netstack) -> (r: Result<Socket, Error>)
        requires
            old(net).script().len() > 0,
        ensures
            final(net).script() == old(net).script().skip(1),
            final(net).log() == old(net).log().push(
                (Call::Socket { family: fam, sock_type: ty, proto: 0 }),
            ),
            match r {
                Ok(s) => old(net).script()[0] >= 0 && s.raw_fd() == old(net).script()[0]
                    && s.wf(),
                Err(e) => old(net).script()[0] < 0 && e == Error(old(net).script()[0]),
            },
    {
        let code = net.sock_socket(fam, ty, 0);
        match to_result(code) {
            Ok(fd) => Ok(Socket(FileDesc::adopt_raw_fd(fd))),
            Err(e) => Err(e),
        }
    }

    /// Connects to `addr`, retrying transparently while the syscall
    /// reports `EINTR` and treating `EISCONN` as success: if the
    /// connection completed during an interrupted attempt, a later report
    /// that it is already connected is not an error.
    pub fn connect(&self, addr: &SocketAddr, net: &mut Netstack) -> (r: Result<(), Error>)
        requires
            has_decision(old(net).script()),
        ensures
            final(net).script() == old(net).script().skip(
                decision_index(old(net).script()) as int + 1,
            ),
            final(net).log() == old(net).log() + Seq::new(
                (decision_index(old(net).script()) + 1) as nat,
                |i: int| (Call::Connect { fd: self.raw_fd(), len: addr.raw_len() }),
            ),
            r == connect_outcome(old(net).script()),
    {
        let raw = addr.to_raw();
        let len = raw.len();
        let fd = self.as_raw_fd();
        let ghost s0 = net.script();
        let ghost l0 = net.log();
        let ghost mut k: int = 0;
        proof {
            lemma_decision_index(s0);
        }
        loop
            invariant
                has_decision(net.script()),
                0 <= k <= decision_index(s0),
                decision_index(s0) < s0.len(),
                net.script() == s0.skip(k),
                decision_index(net.script()) == decision_index(s0) - k,
                net.log() == l0 + Seq::new(k as nat, |i: int| (Call::Connect { fd, len })),
                fd == self.raw_fd(),
                len == addr.raw_len(),
                has_decision(s0),
                s0 == old(net).script(),
                l0 == old(net).log(),
            decreases decision_index(s0) - k,
        {
            let code = net.sock_connect(fd, len);
            proof {
                assert(net.script() =~= s0.skip(k + 1));
                assert(net.log() =~= l0 + Seq::new(
                    (k + 1) as nat,
                    |i: int| (Call::Connect { fd, len }),
                ));
            }
            match policy(code) {
                Flow::Retry => {
                    proof {
                        assert(decision_index(s0.skip(k)) == 1 + decision_index(
                            s0.skip(k).skip(1),
                        ));
                        assert(s0.skip(k).skip(1) =~= s0.skip(k + 1));
                        k = k + 1;
                    }
                },
                Flow::Act(c) => {
                    proof {
                        assert(!spec_is_eintr(c));
                        assert(decision_index(s0) == k);
                        assert(decision(s0) == c);
                    }
                    if c >= 0 {
                        return Ok(());
                    }
                    if c == -EISCONN {
                        return Ok(());
                    }
                    return Err(Error(c));
                },
            }
        }
    }

    /// Sets an integer-valued socket option, translating the return code
    /// uniformly: non-negative is success, negative is the typed error.
    pub fn set_option(&self, level: i32, name: i32, value: i32, net: &mut Netstack) -> (r: Result<
        (),
        Error,
    >)
        requires
            old(net).script().len() > 0,
        ensures
            final(net).script() == old(net).script().skip(1),
            final(net).log() == old(net).log().push(
                (Call::Setsockopt { fd: self.raw_fd(), level, name, value }),
            ),
            r == (if old(net).script()[0] >= 0 {
                Ok::<(), Error>(())
            } else {
                Err::<(), Error>(Error(old(net).script()[0]))
            }),
    {
        let code = net.sock_setsockopt(self.as_raw_fd(), level, name, value);
        match to_result(code) {
            Ok(_) => Ok(()),
            Err(e) => Err(e),
        }
    }

    /// Binds the socket to `addr`, passing the raw representation's byte
    /// length for the variant in use.
    pub fn bind(&self, addr: &SocketAddr, net: &mut Netstack) -> (r: Result<(), Error>)
        requires
            old(net).script().len() > 0,
        ensures
            final(net).script() == old(net).script().skip(1),
            final(net).log() == old(net).log().push(
                (Call::Bind { fd: self.raw_fd(), len: addr.raw_len() }),
            ),
            r == (if old(net).script()[0] >= 0 {
                Ok::<(), Error>(())
            } else {
                Err::<(), Error>(Error(old(net).script()[0]))
            }),
    {
        let raw = addr.to_raw();
        let code = net.sock_bind(self.as_raw_fd(), raw.len());
        match to_result(code) {
            Ok(_) => Ok(()),
            Err(e) => Err(e),
        }
    }

    /// Starts listening with the given backlog.
    pub fn listen(&self, backlog: i32, net: &mut Netstack) -> (r: Result<(), Error>)
        requires
            old(net).script().len() > 0,
        ensures
            final(net).script() == old(net).script().skip(1),
            final(net).log() == old(net).log().push(
                (Call::Listen { fd: self.raw_fd(), backlog }),
            ),
            r == (if old(net).script()[0] >= 0 {
                Ok::<(), Error>(())
            } else {
                Err::<(), Error>(Error(old(net).script()[0]))
            }),
    {
        let code = net.sock_listen(self.as_raw_fd(), backlog);
        match to_result(code) {
            Ok(_) => Ok(()),
            Err(e) => Err(e),
        }
    }

    /// Accepts one connection, retrying transparently on `EINTR`. The
    /// non-negative return is a new descriptor for the peer connection,
    /// adopted into its own socket with its own single owner; any other
    /// negative return is the typed error.
    pub fn accept(&self, net: &mut Netstack) -> (r: Result<Socket, Error>)
        requires
            has_decision(old(net).script()),
        ensures
            final(net).script() == old(net).script().skip(
                decision_index(old(net).script()) as int + 1,
            ),
            final(net).log() == old(net).log() + Seq::new(
                (decision_index(old(net).script()) + 1) as nat,
                |i: int| (Call::Accept { fd: self.raw_fd() }),
            ),
            match r {
                Ok(s) => decision(old(net).script()) >= 0 && s.raw_fd() == decision(
                    old(net).script(),
                ) && s.wf(),
                Err(e) => decision(old(net).script()) < 0 && e == Error(
                    decision(old(net).script()),
                ),
            },
    {
        let fd = self.as_raw_fd();
        let ghost s0 = net.script();
        let ghost l0 = net.log();
        let ghost mut k: int = 0;
        proof {
            lemma_decision_index(s0);
        }
        loop
            invariant
                has_decision(net.script()),
                0 <= k <= decision_index(s0),
                decision_index(s0) < s0.len(),
                net.script() == s0.skip(k),
                decision_index(net.script()) == decision_index(s0) - k,
                net.log() == l0 + Seq::new(k as nat, |i: int| (Call::Accept { fd })),
                fd == self.raw_fd(),
                has_decision(s0),
                s0 == old(net).script(),
                l0 == old(net).log(),
            decreases decision_index(s0) - k,
        {
            let code = net.sock_accept(fd);
            proof {
                assert(net.script() =~= s0.skip(k + 1));
                assert(net.log() =~= l0 + Seq::new(
                    (k + 1) as nat,
                    |i: int| (Call::Accept { fd }),
                ));
            }
            match policy(code) {
                Flow::Retry => {
                    proof {
                        assert(decision_index(s0.skip(k)) == 1 + decision_index(
                            s0.skip(k).skip(1),
                        ));
                        assert(s0.skip(k).skip(1) =~= s0.skip(k + 1));
                        k = k + 1;
                    }
                },
                Flow::Act(c) => {
                    proof {
                        assert(decision_index(s0) == k);
                        assert(decision(s0) == c);
                    }
                    match to_result(c) {
                        Ok(peer) => {
                            return Ok(Socket(FileDesc::adopt_raw_fd(peer)));
                        },
                        Err(e) => {
                            return Err(e);
                        },
                    }
                },
            }
        }
    }

    /// Sends `len` bytes, retrying transparently on `EINTR`. The
    /// non-negative return is the number of bytes sent; any other negative
    /// return is the typed error.
    pub fn send(&self, len: usize, net: &mut Netstack) -> (r: Result<i32, Error>)
        requires
            has_decision(old(net).script()),
        ensures
            final(net).script() == old(net).script().skip(
                decision_index(old(net).script()) as int + 1,
            ),
            final(net).log() == old(net).log() + Seq::new(
                (decision_index(old(net).script()) + 1) as nat,
                |i: int| (Call::Send { fd: self.raw_fd(), len }),
            ),
            r == call_outcome(old(net).script()),
    {
        let fd = self.as_raw_fd();
        let ghost s0 = net.script();
        let ghost l0 = net.log();
        let ghost mut k: int = 0;
        proof {
            lemma_decision_index(s0);
        }
        loop
            invariant
                has_decision(net.script()),
                0 <= k <= decision_index(s0),
                decision_index(s0) < s0.len(),
                net.script() == s0.skip(k),
                decision_index(net.script()) == decision_index(s0) - k,
                net.log() == l0 + Seq::new(k as nat, |i: int| (Call::Send { fd, len })),
                fd == self.raw_fd(),
                has_decision(s0),
                s0 == old(net).script(),
                l0 == old(net).log(),
            decreases decision_index(s0) - k,
        {
            let code = net.sock_send(fd, len);
            proof {
                assert(net.script() =~= s0.skip(k + 1));
                assert(net.log() =~= l0 + Seq::new(
                    (k + 1) as nat,
                    |i: int| (Call::Send { fd, len }),
                ));
            }
            match policy(code) {
                Flow::Retry => {
                    proof {
                        assert(decision_index(s0.skip(k)) == 1 + decision_index(
                            s0.skip(k).skip(1),
                        ));
                        assert(s0.skip(k).skip(1) =~= s0.skip(k + 1));
                        k = k + 1;
                    }
                },
                Flow::Act(c) => {
                    proof {
                        assert(decision_index(s0) == k);
                        assert(decision(s0) == c);
                    }
                    return to_result(c);
                },
            }
        }
    }

    /// Releases the socket's descriptor: one close syscall, return code
    /// discarded, no retry.
    pub fn close(self, net: &mut Netstack)
        ensures
            final(net).log() == old(net).log().push((Call::Close { fd: self.raw_fd() })),
            final(net).script() == old(net).script(),
    {
        self.0.close(net);
    }
}

} // verus!
