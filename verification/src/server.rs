//! The demonstration server: a restartable accept loop over the socket
//! layer.
//!
//! The server creates a listening socket (address reuse on, fixed IPv4
//! address and port, fixed backlog), then serves connections: each
//! successful accept is answered with the fixed response and the peer
//! descriptor is closed by its own guard, independently of the listener. A
//! failed accept is skipped and the loop goes on — one bad connection
//! attempt never terminates the listener. The loop runs for as long as the
//! scripted kernel has enough return codes for a full iteration; running
//! out is the injectable shutdown signal, at which point the listener's
//! own guard closes it.
//!
//! Failures during setup abort the server with a typed error naming the
//! phase, after closing the partially set-up socket.

use vstd::prelude::*;

use crate::error::Error;
use crate::fd::{AsRawFd, FileDesc, FromRawFd, RawFd};
use crate::net::{Socket, SocketAddr, SocketAddrV4};
use crate::netstack::{
    close_count, lemma_close_count_add, Call, Netstack, AF_INET, SOCK_STREAM, SOL_SOCKET,
    SO_REUSEADDR,
};

verus! {

/// The port the demonstration server listens on.
pub const PORT: u16 = 8080;

/// The backlog handed to the listen syscall.
pub const BACKLOG: i32 = 128;

/// The fixed response: a status line, a length header matching the
/// 33-byte body, and the body.
pub const RESPONSE: &'static str = "HTTP/1.1 200 OK\r\nContent-Length: 33\r\n\r\nHello, world from rust on zephyr!";

/// The byte length of [`RESPONSE`]: 39 header bytes and the 33-byte body.
pub const RESPONSE_LEN: usize = 72;

/// The length header is honest: the response is ASCII, and its character
/// count — equal to its byte count — is exactly [`RESPONSE_LEN`].
pub proof fn lemma_response_len()
    ensures
        RESPONSE@.len() == RESPONSE_LEN,
{
    reveal_strlit("HTTP/1.1 200 OK\r\nContent-Length: 33\r\n\r\nHello, world from rust on zephyr!");
}

/// The IPv4 address the server binds to.
pub fn server_addr() -> (a: SocketAddr)
    ensures
        a.family() == AF_INET,
        a matches SocketAddr::V4(v) && v.port == PORT && v.addr@ == seq![
            192u8,
            168u8,
            1u8,
            132u8,
        ],
{
    let a = SocketAddr::V4(SocketAddrV4 { addr: [192, 168, 1, 132], port: PORT });
    proof {
        let v = a->V4_0;
        assert(v.addr@ =~= seq![192u8, 168u8, 1u8, 132u8]);
    }
    a
}

/// A failure during server setup, naming the phase that failed.
#[derive(Clone, Copy, Debug, PartialEq, Eq, Structural)]
pub enum ServerError {
    /// Creating the listening socket failed.
    Create(Error),
    /// Enabling address reuse failed.
    SetOption(Error),
    /// Binding to the server address failed.
    Bind(Error),
    /// Listening failed.
    Listen(Error),
}

/// The calls the accept loop makes on listener `lfd` for a script of
/// accept and send return codes: a failed accept consumes one code and
/// adds only the accept call; a successful accept consumes the accept and
/// send codes and adds the accept, the response send to the peer, and the
/// close of the peer's own guard. The loop stops when fewer than two
/// codes — the most one iteration can consume — remain.
pub open spec fn serve_log(lfd: RawFd, script: Seq<i32>) -> Seq<Call>
    decreases script.len(),
{
    if script.len() < 2 {
        seq![]
    } else if script[0] < 0 {
        seq![(Call::Accept { fd: lfd })] + serve_log(lfd, script.skip(1))
    } else {
        seq![
            (Call::Accept { fd: lfd }),
            (Call::Send { fd: script[0], len: RESPONSE_LEN }),
            (Call::Close { fd: script[0] }),
        ] + serve_log(lfd, script.skip(2))
    }
}

/// How many connections the accept loop serves for a script: one per
/// successful accept.
pub open spec fn served_count(script: Seq<i32>) -> nat
    decreases script.len(),
{
    if script.len() < 2 {
        0
    } else if script[0] < 0 {
        served_count(script.skip(1))
    } else {
        1 + served_count(script.skip(2))
    }
}

/// How many scripted return codes the accept loop consumes for a script.
pub open spec fn serve_consumed(script: Seq<i32>) -> nat
    decreases script.len(),
{
    if script.len() < 2 {
        0
    } else if script[0] < 0 {
        1 + serve_consumed(script.skip(1))
    } else {
        2 + serve_consumed(script.skip(2))
    }
}

/// The accept loop never consumes more codes than the script holds, and
/// serves at most one connection per two codes consumed.
pub proof fn lemma_serve_bounds(script: Seq<i32>)
    ensures
        serve_consumed(script) <= script.len(),
        served_count(script) <= script.len(),
    decreases script.len(),
{
    if script.len() >= 2 {
        if script[0] < 0 {
            lemma_serve_bounds(script.skip(1));
        } else {
            lemma_serve_bounds(script.skip(2));
        }
    }
}

/// One failed accept does not terminate the loop: a negative accept
/// return followed by a successful one still serves the second
/// connection — the loop records the failed accept, then the whole
/// service of the accepted peer, and goes on with the rest of the script.
pub proof fn lemma_accept_failure_keeps_serving(lfd: RawFd, script: Seq<i32>)
    requires
        script.len() >= 3,
        script[0] < 0,
        script[1] >= 0,
    ensures
        serve_log(lfd, script) == seq![
            (Call::Accept { fd: lfd }),
            (Call::Accept { fd: lfd }),
            (Call::Send { fd: script[1], len: RESPONSE_LEN }),
            (Call::Close { fd: script[1] }),
        ] + serve_log(lfd, script.skip(3)),
        served_count(script) == 1 + served_count(script.skip(3)),
{
    assert(script.skip(1).len() >= 2);
    assert(script.skip(1)[0] == script[1]);
    assert(script.skip(1).skip(2) =~= script.skip(3));
    assert(serve_log(lfd, script) == seq![(Call::Accept { fd: lfd })] + serve_log(
        lfd,
        script.skip(1),
    ));
    assert(serve_log(lfd, script.skip(1)) == seq![
        (Call::Accept { fd: lfd }),
        (Call::Send { fd: script[1], len: RESPONSE_LEN }),
        (Call::Close { fd: script[1] }),
    ] + serve_log(lfd, script.skip(1).skip(2)));
    assert(served_count(script) == served_count(script.skip(1)));
    assert(served_count(script.skip(1)) == 1 + served_count(script.skip(1).skip(2)));
    assert(serve_log(lfd, script) =~= seq![
        (Call::Accept { fd: lfd }),
        (Call::Accept { fd: lfd }),
        (Call::Send { fd: script[1], len: RESPONSE_LEN }),
        (Call::Close { fd: script[1] }),
    ] + serve_log(lfd, script.skip(3)));
}

/// Serving connections never closes the listening socket: as long as no
/// accept hands back the listener's own descriptor, every close the loop
/// records is a peer's, and the listener's close count stays zero.
pub proof fn lemma_serving_never_closes_listener(lfd: RawFd, script: Seq<i32>)
    requires
        forall|i: int| 0 <= i < script.len() && script[i] >= 0 ==> script[i] != lfd,
    ensures
        close_count(serve_log(lfd, script), lfd) == 0,
    decreases script.len(),
{
    lemma_close_count_single(Call::Accept { fd: lfd }, lfd);
    if script.len() < 2 {
    } else if script[0] < 0 {
        assert(forall|i: int|
            0 <= i < script.skip(1).len() && script.skip(1)[i] >= 0 ==> script.skip(1)[i]
                != lfd);
        lemma_serving_never_closes_listener(lfd, script.skip(1));
        lemma_close_count_add(
            seq![(Call::Accept { fd: lfd })],
            serve_log(lfd, script.skip(1)),
            lfd,
        );
    } else {
        assert(forall|i: int|
            0 <= i < script.skip(2).len() && script.skip(2)[i] >= 0 ==> script.skip(2)[i]
                != lfd);
        lemma_serving_never_closes_listener(lfd, script.skip(2));
        let head = seq![
            (Call::Accept { fd: lfd }),
            (Call::Send { fd: script[0], len: RESPONSE_LEN }),
            (Call::Close { fd: script[0] }),
        ];
        lemma_close_count_add(head, serve_log(lfd, script.skip(2)), lfd);
        assert(script[0] != lfd);
        let a = seq![(Call::Accept { fd: lfd })];
        let b = seq![(Call::Send { fd: script[0], len: RESPONSE_LEN })];
        let c = seq![(Call::Close { fd: script[0] })];
        lemma_close_count_single(Call::Accept { fd: lfd }, lfd);
        lemma_close_count_single(Call::Send { fd: script[0], len: RESPONSE_LEN }, lfd);
        lemma_close_count_single(Call::Close { fd: script[0] }, lfd);
        lemma_close_count_add(a, b, lfd);
        lemma_close_count_add(a + b, c, lfd);
        assert(head =~= (a + b) + c);
        assert(close_count(head, lfd) == 0);
    }
}

/// The close count of a one-call log.
proof fn lemma_close_count_single(c: Call, fd: RawFd)
    ensures
        close_count(seq![c], fd) == if c == (Call::Close { fd }) {
            1nat
        } else {
            0nat
        },
{
    let s = seq![c];
    assert(s.drop_last() =~= Seq::<Call>::empty());
    assert(close_count(Seq::<Call>::empty(), fd) == 0);
    assert(close_count(s, fd) == close_count(s.drop_last(), fd) + if s.last() == (
    Call::Close { fd }) {
        1nat
    } else {
        0nat
    });
}

/// Runs the server against the scripted kernel: create the listening
/// socket, enable address reuse, bind, listen, then serve connections
/// until the script runs out, and close the listener. Each setup failure
/// closes the partially set-up socket (except a failed create, which
/// never produced one) and aborts with the phase's error; a failed accept
/// only skips one iteration. On a completed run the result is the number
/// of connections served.
pub fn run_server(net: &mut Netstack) -> (r: Result<usize, ServerError>)
    requires
        old(net).script().len() >= 4,
    ensures
        ({
            let s = old(net).script();
            let setup = seq![
                (Call::Socket { family: AF_INET, sock_type: SOCK_STREAM, proto: 0 }),
                (Call::Setsockopt {
                    fd: s[0],
                    level: SOL_SOCKET,
                    name: SO_REUSEADDR,
                    value: 1,
                }),
                (Call::Bind { fd: s[0], len: 8 }),
                (Call::Listen { fd: s[0], backlog: BACKLOG }),
            ];
            &&& (s[0] < 0 ==> {
                &&& r == Err::<usize, ServerError>(ServerError::Create(Error(s[0])))
                &&& final(net).log() == old(net).log() + setup.take(1)
                &&& final(net).script() == s.skip(1)
            })
            &&& (s[0] >= 0 && s[1] < 0 ==> {
                &&& r == Err::<usize, ServerError>(ServerError::SetOption(Error(s[1])))
                &&& final(net).log() == old(net).log() + setup.take(2) + seq![
                    (Call::Close { fd: s[0] }),
                ]
                &&& final(net).script() == s.skip(2)
            })
            &&& (s[0] >= 0 && s[1] >= 0 && s[2] < 0 ==> {
                &&& r == Err::<usize, ServerError>(ServerError::Bind(Error(s[2])))
                &&& final(net).log() == old(net).log() + setup.take(3) + seq![
                    (Call::Close { fd: s[0] }),
                ]
                &&& final(net).script() == s.skip(3)
            })
            &&& (s[0] >= 0 && s[1] >= 0 && s[2] >= 0 && s[3] < 0 ==> {
                &&& r == Err::<usize, ServerError>(ServerError::Listen(Error(s[3])))
                &&& final(net).log() == old(net).log() + setup + seq![
                    (Call::Close { fd: s[0] }),
                ]
                &&& final(net).script() == s.skip(4)
            })
            &&& (s[0] >= 0 && s[1] >= 0 && s[2] >= 0 && s[3] >= 0 ==> {
                &&& r matches Ok(n) && n == served_count(s.skip(4))
                &&& final(net).log() == old(net).log() + setup + serve_log(s[0], s.skip(4))
                    + seq![(Call::Close { fd: s[0] })]
                &&& final(net).script() == s.skip(4).skip(serve_consumed(s.skip(4)) as int)
            })
        }),
{
    let addr = server_addr();
    let sock = match Socket::new(&addr, SOCK_STREAM, net) {
        Ok(s) => s,
        Err(e) => {
            proof {
                assert(net.log() =~= old(net).log() + seq![
                    (Call::Socket { family: AF_INET, sock_type: SOCK_STREAM, proto: 0 }),
                ]);
            }
            return Err(ServerError::Create(e));
        },
    };
    let lfd = sock.as_raw_fd();
    match sock.set_option(SOL_SOCKET, SO_REUSEADDR, 1, net) {
        Ok(_) => (),
        Err(e) => {
            sock.close(net);
            proof {
                assert(net.script() =~= old(net).script().skip(2));
            }
            return Err(ServerError::SetOption(e));
        },
    }
    match sock.bind(&addr, net) {
        Ok(_) => (),
        Err(e) => {
            sock.close(net);
            proof {
                assert(net.script() =~= old(net).script().skip(3));
            }
            return Err(ServerError::Bind(e));
        },
    }
    match sock.listen(BACKLOG, net) {
        Ok(_) => (),
        Err(e) => {
            sock.close(net);
            proof {
                assert(net.script() =~= old(net).script().skip(4));
            }
            return Err(ServerError::Listen(e));
        },
    }
    proof {
        assert(net.script() =~= old(net).script().skip(4));
    }
    let ghost s4 = net.script();
    let ghost lbase = net.log();
    let mut served: usize = 0;
    let ghost mut j: int = 0;
    let remaining = net.pending();
    proof {
        lemma_serve_bounds(s4);
        assert(s4.len() == remaining);
        assert(s4.skip(0) =~= s4);
    }
    while net.pending() >= 2
        invariant
            0 <= j <= s4.len(),
            s4.len() <= usize::MAX,
            net.script() == s4.skip(j),
            net.log() + serve_log(lfd, net.script()) == lbase + serve_log(lfd, s4),
            served + served_count(net.script()) == served_count(s4),
            j + serve_consumed(net.script()) == serve_consumed(s4),
            served_count(s4) <= s4.len(),
            lfd == sock.raw_fd(),
        decreases s4.len() - j,
    {
        let code = net.sock_accept(lfd);
        if code < 0 {
            proof {
                assert(net.script() =~= s4.skip(j + 1));
                assert(net.log() + serve_log(lfd, net.script()) =~= lbase + serve_log(
                    lfd,
                    s4,
                ));
                j = j + 1;
            }
        } else {
            let client = FileDesc::adopt_raw_fd(code);
            let _ = net.sock_send(code, RESPONSE_LEN);
            client.close(net);
            proof {
                lemma_serve_bounds(s4.skip(j));
            }
            served = served + 1;
            proof {
                assert(net.script() =~= s4.skip(j).skip(2));
                assert(s4.skip(j).skip(2) =~= s4.skip(j + 2));
                assert(net.log() + serve_log(lfd, net.script()) =~= lbase + serve_log(
                    lfd,
                    s4,
                ));
                j = j + 2;
            }
        }
    }
    proof {
        assert(serve_log(lfd, net.script()) =~= Seq::<Call>::empty());
        assert(net.log() =~= lbase + serve_log(lfd, s4));
    }
    sock.close(net);
    Ok(served)
}

} // verus!
