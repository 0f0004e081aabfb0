//! A safe-ownership layer over raw POSIX-style socket syscalls of an
//! embedded RTOS network stack, plus a demonstration server built on it.
//!
//! The raw syscall surface is represented by an explicit, scripted value
//! ([`netstack::Netstack`]): every operation takes it by `&mut` reference,
//! consumes the next prepared return code, and records the call it made.
//! The ownership layer ([`fd`]), the error-translation and retry policy
//! ([`policy`], [`error`]), the socket wrapper ([`net`]) and the
//! demonstration server ([`server`]) are all verified against that record,
//! so that properties such as "the close syscall is invoked exactly once
//! per owned descriptor" are theorems about the call log, not conventions.

pub mod error;
pub mod fd;
pub mod net;
pub mod netstack;
pub mod policy;
pub mod server;
