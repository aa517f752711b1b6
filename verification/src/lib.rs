//! A DHCPv4 client protocol engine: a byte-exact packet codec, a validated
//! configuration model, the DORA/renew/rebind/release lease state machine,
//! and the transmit/receive matching rules.
//!
//! The engine is pure: it decides and computes, while a host environment
//! performs the sends, receives, timers and callback invocations and hands
//! their outcomes back in as plain values.
use vstd::prelude::*;

pub mod config;
pub mod coordinator;
pub mod engine;
pub mod options;
pub mod packet;
pub mod wire;

verus! {

/// The error taxonomy surfaced by the engine.
#[derive(Clone, Copy, Debug, PartialEq, Eq, Structural)]
pub enum Dhcp4Error {
    /// A decode-time structural violation: missing or wrong magic cookie,
    /// a buffer shorter than the fixed header, or an option whose declared
    /// length overruns the buffer.
    MalformedPacket,
    /// An encode-time capacity violation: the built packet would exceed the
    /// maximum transmissible size.
    OptionsOverflow,
    /// A configuration that fails validation.
    InvalidConfig,
    /// An operation requested in a state that forbids it.
    InvalidState,
    /// A start requested while an exchange is already in flight.
    AlreadyStarted,
    /// A retry budget exhausted during DORA or renewal.
    LeaseTimeout,
}

/// The DHCP magic cookie, stored in the four bytes before the options area.
pub const DHCP_MAGIC: u32 = 0x63825363;

/// Bytes of the fixed-offset header, magic cookie included.
pub const FIXED_HEADER_LEN: usize = 240;

/// The conventional minimum MTU: no built packet may exceed it.
pub const MAX_PACKET_LEN: usize = 576;

/// Option code of the one-byte padding filler.
pub const OPT_PAD: u8 = 0x00;

/// Option code that terminates the option chain.
pub const OPT_END: u8 = 0xFF;

/// Option code of the subnet-mask option.
pub const OPT_SUBNET_MASK: u8 = 1;

/// Option code of the router option.
pub const OPT_ROUTER: u8 = 3;

/// Option code of the requested-IP-address option.
pub const OPT_REQUESTED_IP: u8 = 50;

/// Option code of the lease-time option.
pub const OPT_LEASE_TIME: u8 = 51;

/// Option code of the DHCP-message-type option.
pub const OPT_MESSAGE_TYPE: u8 = 53;

/// Option code of the server-identifier option.
pub const OPT_SERVER_ID: u8 = 54;

/// Message type carried by a DISCOVER.
pub const MSG_DISCOVER: u8 = 1;

/// Message type carried by an OFFER.
pub const MSG_OFFER: u8 = 2;

/// Message type carried by a REQUEST.
pub const MSG_REQUEST: u8 = 3;

/// Message type carried by an ACK.
pub const MSG_ACK: u8 = 5;

/// Message type carried by a NAK.
pub const MSG_NAK: u8 = 6;

/// Message type carried by a RELEASE.
pub const MSG_RELEASE: u8 = 7;

} // verus!
