//! ICMP echo ("ping") library.
//!
//! The verified core: the Internet checksum, the encoding and decoding of ICMP
//! echo packets, the decisions taken on received datagrams, the state of a ping
//! session and the option parsing and statistics of the command line tool.
//! Sockets, name resolution, clocks and printing live outside this crate.

pub mod netorder;
pub mod checksum;
pub mod error;
pub mod packet;
pub mod receive;
pub mod session;
pub mod cli;

pub use error::{PingError, Result};
pub use packet::{IcmpHeader, IcmpPacket, IcmpType};

use vstd::prelude::*;

verus! {

/// Version of this library.
pub const VERSION: &'static str = "0.1.0";

} // verus!
