//! The socket wrapper: construction, the error translation, the retry
//! policy, and the address encoding.

use zsock::error::{to_result, Error};
use zsock::fd::{AsRawFd, IntoRawFd};
use zsock::net::{Socket, SocketAddr, SocketAddrV4, SocketAddrV6};
use zsock::netstack::{Call, Netstack, AF_INET, AF_INET6, EINTR, EISCONN, SOCK_STREAM,
    SOL_SOCKET, SO_REUSEADDR};

fn v4(addr: [u8; 4], port: u16) -> SocketAddr {
    SocketAddr::V4(SocketAddrV4 { addr, port })
}

fn v6(addr: [u8; 16], port: u16, flowinfo: u32, scope_id: u32) -> SocketAddr {
    SocketAddr::V6(SocketAddrV6 { addr, port, flowinfo, scope_id })
}

#[test]
fn to_result_translates_by_sign() {
    assert_eq!(to_result(0), Ok(0));
    assert_eq!(to_result(17), Ok(17));
    assert_eq!(to_result(-1), Err(Error(-1)));
    assert_eq!(to_result(-113), Err(Error(-113)));
}

#[test]
fn new_raw_success_adopts_the_descriptor() {
    let mut net = Netstack::new(vec![3]);
    let sock = Socket::new_raw(AF_INET, SOCK_STREAM, &mut net).unwrap();
    assert_eq!(sock.as_raw_fd(), 3);
    assert_eq!(
        net.calls().as_slice(),
        &[Call::Socket { family: AF_INET, sock_type: SOCK_STREAM, proto: 0 }]
    );
}

#[test]
fn new_raw_failure_surfaces_the_raw_code() {
    let mut net = Netstack::new(vec![-13]);
    let r = Socket::new_raw(AF_INET, SOCK_STREAM, &mut net);
    assert_eq!(r.unwrap_err(), Error(-13));
    // The create call was made, but nothing was adopted and nothing closed.
    assert_eq!(
        net.calls().as_slice(),
        &[Call::Socket { family: AF_INET, sock_type: SOCK_STREAM, proto: 0 }]
    );
}

#[test]
fn new_selects_af_inet_for_v4() {
    let mut net = Netstack::new(vec![4]);
    let addr = v4([127, 0, 0, 1], 80);
    let sock = Socket::new(&addr, SOCK_STREAM, &mut net).unwrap();
    assert_eq!(sock.as_raw_fd(), 4);
    assert_eq!(
        net.calls().as_slice(),
        &[Call::Socket { family: AF_INET, sock_type: SOCK_STREAM, proto: 0 }]
    );
}

#[test]
fn new_selects_af_inet6_for_v6() {
    let mut net = Netstack::new(vec![4]);
    let addr = v6([0; 16], 80, 0, 0);
    let _sock = Socket::new(&addr, SOCK_STREAM, &mut net).unwrap();
    assert_eq!(
        net.calls().as_slice(),
        &[Call::Socket { family: AF_INET6, sock_type: SOCK_STREAM, proto: 0 }]
    );
}

#[test]
fn connect_succeeds_first_try() {
    let mut net = Netstack::new(vec![5, 0]);
    let sock = Socket::new_raw(AF_INET, SOCK_STREAM, &mut net).unwrap();
    let addr = v4([10, 0, 0, 1], 8080);
    assert_eq!(sock.connect(&addr, &mut net), Ok(()));
    assert_eq!(net.calls().len(), 2);
    assert_eq!(net.calls()[1], Call::Connect { fd: 5, len: 8 });
}

#[test]
fn connect_retries_through_eintr_to_success() {
    // Three interruptions, then success: observably the same as an
    // immediate success, with three extra attempts in the log.
    let mut net = Netstack::new(vec![5, -EINTR, -EINTR, -EINTR, 0]);
    let sock = Socket::new_raw(AF_INET, SOCK_STREAM, &mut net).unwrap();
    let addr = v4([10, 0, 0, 1], 8080);
    assert_eq!(sock.connect(&addr, &mut net), Ok(()));
    assert_eq!(net.calls().len(), 5);
    for i in 1..5 {
        assert_eq!(net.calls()[i], Call::Connect { fd: 5, len: 8 });
    }
    assert_eq!(net.pending(), 0);
}

#[test]
fn connect_eisconn_is_success() {
    let mut net = Netstack::new(vec![5, -EISCONN]);
    let sock = Socket::new_raw(AF_INET, SOCK_STREAM, &mut net).unwrap();
    let addr = v4([10, 0, 0, 1], 8080);
    assert_eq!(sock.connect(&addr, &mut net), Ok(()));
}

#[test]
fn connect_eintr_then_eisconn_is_success() {
    let mut net = Netstack::new(vec![5, -EINTR, -EISCONN]);
    let sock = Socket::new_raw(AF_INET, SOCK_STREAM, &mut net).unwrap();
    let addr = v4([10, 0, 0, 1], 8080);
    assert_eq!(sock.connect(&addr, &mut net), Ok(()));
}

#[test]
fn connect_other_error_is_surfaced_not_retried() {
    let mut net = Netstack::new(vec![5, -111, 0]);
    let sock = Socket::new_raw(AF_INET, SOCK_STREAM, &mut net).unwrap();
    let addr = v4([10, 0, 0, 1], 8080);
    assert_eq!(sock.connect(&addr, &mut net), Err(Error(-111)));
    // Exactly one connect attempt: the scripted success afterwards is
    // never consumed.
    assert_eq!(net.calls().len(), 2);
    assert_eq!(net.pending(), 1);
}

#[test]
fn accept_retries_eintr_and_adopts_the_peer() {
    let mut net = Netstack::new(vec![9, -EINTR, 11]);
    let sock = Socket::new_raw(AF_INET, SOCK_STREAM, &mut net).unwrap();
    let peer = sock.accept(&mut net).unwrap();
    assert_eq!(peer.as_raw_fd(), 11);
    assert_eq!(
        net.calls().as_slice()[1..],
        [Call::Accept { fd: 9 }, Call::Accept { fd: 9 }]
    );
    // The peer has its own guard, independent of the listener.
    assert_eq!(peer.into_raw_fd(), 11);
    assert_eq!(sock.as_raw_fd(), 9);
}

#[test]
fn accept_failure_is_surfaced() {
    let mut net = Netstack::new(vec![9, -105]);
    let sock = Socket::new_raw(AF_INET, SOCK_STREAM, &mut net).unwrap();
    assert_eq!(sock.accept(&mut net).unwrap_err(), Error(-105));
}

#[test]
fn send_retries_eintr_and_reports_bytes_sent() {
    let mut net = Netstack::new(vec![6, -EINTR, 72]);
    let sock = Socket::new_raw(AF_INET, SOCK_STREAM, &mut net).unwrap();
    assert_eq!(sock.send(72, &mut net), Ok(72));
    assert_eq!(
        net.calls().as_slice()[1..],
        [Call::Send { fd: 6, len: 72 }, Call::Send { fd: 6, len: 72 }]
    );
}

#[test]
fn set_option_bind_listen_translate_uniformly() {
    let mut net = Netstack::new(vec![7, 0, 0, 0]);
    let sock = Socket::new_raw(AF_INET, SOCK_STREAM, &mut net).unwrap();
    let addr = v4([192, 168, 1, 132], 8080);
    assert_eq!(sock.set_option(SOL_SOCKET, SO_REUSEADDR, 1, &mut net), Ok(()));
    assert_eq!(sock.bind(&addr, &mut net), Ok(()));
    assert_eq!(sock.listen(128, &mut net), Ok(()));
    assert_eq!(
        net.calls().as_slice(),
        &[
            Call::Socket { family: AF_INET, sock_type: SOCK_STREAM, proto: 0 },
            Call::Setsockopt { fd: 7, level: SOL_SOCKET, name: SO_REUSEADDR, value: 1 },
            Call::Bind { fd: 7, len: 8 },
            Call::Listen { fd: 7, backlog: 128 },
        ]
    );
}

#[test]
fn bind_failure_is_surfaced() {
    let mut net = Netstack::new(vec![7, -98]);
    let sock = Socket::new_raw(AF_INET, SOCK_STREAM, &mut net).unwrap();
    let addr = v4([192, 168, 1, 132], 8080);
    assert_eq!(sock.bind(&addr, &mut net), Err(Error(-98)));
}

#[test]
fn listen_failure_is_surfaced() {
    let mut net = Netstack::new(vec![7, -95]);
    let sock = Socket::new_raw(AF_INET, SOCK_STREAM, &mut net).unwrap();
    assert_eq!(sock.listen(128, &mut net), Err(Error(-95)));
}

#[test]
fn set_option_failure_is_surfaced() {
    let mut net = Netstack::new(vec![7, -22]);
    let sock = Socket::new_raw(AF_INET, SOCK_STREAM, &mut net).unwrap();
    assert_eq!(
        sock.set_option(SOL_SOCKET, SO_REUSEADDR, 1, &mut net),
        Err(Error(-22))
    );
}

#[test]
fn v4_raw_encoding_is_eight_bytes() {
    let addr = v4([192, 168, 1, 132], 8080);
    let raw = addr.to_raw();
    // Family 1 little-endian, port 8080 = 0x1F90 in network order, then
    // the address bytes.
    assert_eq!(raw, vec![1, 0, 0x1F, 0x90, 192, 168, 1, 132]);
}

#[test]
fn v6_raw_encoding_is_twenty_eight_bytes() {
    let mut bytes = [0u8; 16];
    bytes[0] = 0xFE;
    bytes[1] = 0x80;
    bytes[15] = 0x01;
    let addr = v6(bytes, 443, 0x12345, 2);
    let raw = addr.to_raw();
    assert_eq!(raw.len(), 28);
    // Family 2 little-endian, port 443 = 0x01BB network order, flow
    // information network order, the address bytes, scope little-endian.
    assert_eq!(&raw[0..2], &[2, 0]);
    assert_eq!(&raw[2..4], &[0x01, 0xBB]);
    assert_eq!(&raw[4..8], &[0x00, 0x01, 0x23, 0x45]);
    assert_eq!(&raw[8..24], &bytes);
    assert_eq!(&raw[24..28], &[2, 0, 0, 0]);
}

#[test]
fn socket_close_closes_its_descriptor() {
    let mut net = Netstack::new(vec![3]);
    let sock = Socket::new_raw(AF_INET, SOCK_STREAM, &mut net).unwrap();
    sock.close(&mut net);
    assert_eq!(net.calls()[1], Call::Close { fd: 3 });
    assert_eq!(net.calls().len(), 2);
}
