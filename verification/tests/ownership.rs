//! The ownership discipline of descriptors: close exactly once, and
//! detachment hands the close duty to the caller.

use zsock::fd::{AsRawFd, FromRawFd, IntoRawFd, OwnedFd, FileDesc};
use zsock::netstack::{Call, Netstack};

#[test]
fn adopt_then_close_closes_exactly_once() {
    let mut net = Netstack::new(vec![]);
    let fd = OwnedFd::adopt_raw_fd(5);
    fd.close(&mut net);
    assert_eq!(net.calls().as_slice(), &[Call::Close { fd: 5 }]);
}

#[test]
fn two_guards_close_their_own_descriptors() {
    let mut net = Netstack::new(vec![]);
    let a = OwnedFd::adopt_raw_fd(3);
    let b = OwnedFd::adopt_raw_fd(9);
    b.close(&mut net);
    a.close(&mut net);
    assert_eq!(
        net.calls().as_slice(),
        &[Call::Close { fd: 9 }, Call::Close { fd: 3 }]
    );
}

#[test]
fn detach_cancels_the_close() {
    let mut net = Netstack::new(vec![]);
    let fd = OwnedFd::adopt_raw_fd(5);
    let raw = fd.into_raw_fd();
    assert_eq!(raw, 5);
    // The raw value is dropped here with no guard: no close is recorded.
    assert!(net.calls().is_empty());
}

#[test]
fn detached_descriptor_closed_by_new_owner_only_once() {
    let mut net = Netstack::new(vec![]);
    let fd = OwnedFd::adopt_raw_fd(8);
    let raw = fd.into_raw_fd();
    let again = OwnedFd::adopt_raw_fd(raw);
    again.close(&mut net);
    assert_eq!(net.calls().as_slice(), &[Call::Close { fd: 8 }]);
}

#[test]
fn as_raw_fd_borrows_without_transfer() {
    let mut net = Netstack::new(vec![]);
    let fd = OwnedFd::adopt_raw_fd(7);
    assert_eq!(fd.as_raw_fd(), 7);
    assert_eq!(fd.as_raw_fd(), 7);
    assert!(net.calls().is_empty());
    fd.close(&mut net);
    assert_eq!(net.calls().as_slice(), &[Call::Close { fd: 7 }]);
}

#[test]
fn raw_fd_conversions_are_identity() {
    let raw: i32 = 42;
    assert_eq!(raw.as_raw_fd(), 42);
    assert_eq!(raw.into_raw_fd(), 42);
    assert_eq!(<i32 as FromRawFd>::adopt_raw_fd(42), 42);
}

#[test]
fn file_desc_wraps_one_descriptor() {
    let mut net = Netstack::new(vec![]);
    let fd = FileDesc::adopt_raw_fd(11);
    assert_eq!(fd.as_raw_fd(), 11);
    let raw = fd.into_raw_fd();
    assert_eq!(raw, 11);
    assert!(net.calls().is_empty());
    let fd = FileDesc::adopt_raw_fd(raw);
    fd.close(&mut net);
    assert_eq!(net.calls().as_slice(), &[Call::Close { fd: 11 }]);
}
