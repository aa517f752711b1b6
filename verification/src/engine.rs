//! The lease state machine: the DORA exchange, the renew/rebind timers,
//! release and stop. The engine is driven by plain inputs — received
//! packets with the host callback's verdict, timer firings, wait timeouts —
//! and answers with the packet to send next, so a host loop can perform the
//! sends and waits it cannot.
use vstd::prelude::*;

use crate::Dhcp4Error;
use crate::DHCP_MAGIC;
use crate::MSG_ACK;
use crate::MSG_DISCOVER;
use crate::MSG_NAK;
use crate::MSG_OFFER;
use crate::MSG_RELEASE;
use crate::MSG_REQUEST;
use crate::OPT_LEASE_TIME;
use crate::OPT_MESSAGE_TYPE;
use crate::OPT_REQUESTED_IP;
use crate::OPT_ROUTER;
use crate::OPT_SERVER_ID;
use crate::OPT_SUBNET_MASK;
use crate::config::ConfigData;
use crate::config::config_eq;
use crate::config::copy_config;
use crate::config::valid_config;
use crate::config::validate;
use crate::options::PacketOption;
use crate::options::enc_opts;
use crate::options::encode_options;
use crate::options::find_option;
use crate::options::first_opt_data;
use crate::options::opts_ok;
use crate::options::opts_view;
use crate::options::parse_options;
use crate::options::parsed;
use crate::options::wf_opt;
use crate::options::wf_opts;
use crate::config::valid_requested_opt;
use crate::packet::Packet;
use crate::packet::copy_packet;
use crate::packet::packet_fields_eq;
use crate::packet::wf_packet;
use crate::wire::be32_of;
use crate::wire::copy_bytes;
use crate::wire::join_be32;
use crate::wire::zero_bytes;

verus! {

/// The lease lifecycle states.
#[derive(Clone, Copy, Debug, PartialEq, Eq, Structural)]
pub enum State {
    Stopped,
    Init,
    Selecting,
    Requesting,
    Bound,
    Renewing,
    Rebinding,
    InitReboot,
    Rebooting,
}

/// The notifications handed to the configured callback at each transition.
#[derive(Clone, Copy, Debug, PartialEq, Eq, Structural)]
pub enum Event {
    SendDiscover,
    RcvdOffer,
    SelectOffer,
    SendRequest,
    RcvdAck,
    RcvdNak,
    SendDecline,
    BoundCompleted,
    EnterRenewing,
    EnterRebinding,
    AddressLost,
    Fail,
}

/// The callback's verdict on a received packet: take it as is, discard it,
/// or substitute a replacement for further processing.
#[derive(Debug, Clone, PartialEq, Eq)]
pub enum CallbackDecision {
    Accept,
    Reject,
    Replace(Packet),
}

/// The packet a verdict leaves standing: the replacement where one was
/// substituted, the received packet otherwise.
pub open spec fn chosen_packet(pkt: Packet, d: CallbackDecision) -> Packet {
    match d {
        CallbackDecision::Replace(np) => np,
        _ => pkt,
    }
}

/// A snapshot of the negotiated lease: state, active configuration,
/// negotiated addresses, lease duration, and the most recent reply packet
/// (present from the first BOUND on). The hardware-address field here is
/// 32 bytes wide while the wire packet carries 16: the snapshot and the
/// packet are independent structures with different widths, and both are
/// kept exactly as the protocol declares them.
#[derive(Debug, Clone, PartialEq, Eq)]
pub struct ModeData {
    pub state: State,
    pub config_data: ConfigData,
    pub client_address: [u8; 4],
    pub client_mac_address: Vec<u8>,
    pub server_address: [u8; 4],
    pub router_address: [u8; 4],
    pub subnet_mask: [u8; 4],
    pub lease_time: u32,
    pub reply_packet: Option<Packet>,
}

/// A sequence of `n` zero bytes.
pub open spec fn zeroes(n: int) -> Seq<u8> {
    Seq::new(n as nat, |i: int| 0u8)
}

impl Default for ModeData {
    /// The stopped, unconfigured snapshot: everything zero, no reply.
    fn default() -> (r: Self)
        ensures
            r.state == State::Stopped,
            r.config_data.discover_try_count == 0,
            r.config_data.request_try_count == 0,
            r.config_data.option_list@.len() == 0,
            valid_config(r.config_data),
            r.client_address@ == zeroes(4),
            r.client_mac_address@ == zeroes(32),
            r.server_address@ == zeroes(4),
            r.router_address@ == zeroes(4),
            r.subnet_mask@ == zeroes(4),
            r.lease_time == 0,
            r.reply_packet is None,
    {
        let r = ModeData {
            state: State::Stopped,
            config_data: ConfigData::default(),
            client_address: [0u8, 0u8, 0u8, 0u8],
            client_mac_address: zero_bytes(32),
            server_address: [0u8, 0u8, 0u8, 0u8],
            router_address: [0u8, 0u8, 0u8, 0u8],
            subnet_mask: [0u8, 0u8, 0u8, 0u8],
            lease_time: 0,
            reply_packet: None,
        };
        assert(r.client_address@ =~= zeroes(4));
        assert(r.client_mac_address@ =~= zeroes(32));
        r
    }
}

/// Value equality of two snapshots, field for field.
pub open spec fn mode_eq(a: ModeData, b: ModeData) -> bool {
    &&& a.state == b.state
    &&& config_eq(a.config_data, b.config_data)
    &&& a.client_address@ == b.client_address@
    &&& a.client_mac_address@ == b.client_mac_address@
    &&& a.server_address@ == b.server_address@
    &&& a.router_address@ == b.router_address@
    &&& a.subnet_mask@ == b.subnet_mask@
    &&& a.lease_time == b.lease_time
    &&& match (a.reply_packet, b.reply_packet) {
        (Option::None, Option::None) => true,
        (Option::Some(x), Option::Some(y)) => packet_fields_eq(x, y),
        _ => false,
    }
}

/// Whether a snapshot's negotiated lease fields are all zero.
pub open spec fn lease_cleared(m: ModeData) -> bool {
    &&& m.client_address@ == zeroes(4)
    &&& m.server_address@ == zeroes(4)
    &&& m.router_address@ == zeroes(4)
    &&& m.subnet_mask@ == zeroes(4)
    &&& m.lease_time == 0
}

/// The header every packet this client emits carries: a BOOTP request over
/// Ethernet, the exchange's transaction id, and zeroed name fields.
pub open spec fn client_header(pkt: Packet, xid: u32, client: Seq<u8>, server: Seq<u8>) -> bool {
    &&& wf_packet(pkt)
    &&& pkt.op_code == 1
    &&& pkt.hw_type == 1
    &&& pkt.hw_addr_len == 6
    &&& pkt.hops == 0
    &&& pkt.xid == xid
    &&& pkt.seconds == 0
    &&& pkt.reserved == 0
    &&& pkt.client_addr@ == client
    &&& pkt.your_addr@ == zeroes(4)
    &&& pkt.server_addr@ == server
    &&& pkt.gateway_addr@ == zeroes(4)
    &&& pkt.client_hw_addr@ == zeroes(16)
    &&& pkt.server_name@ == zeroes(64)
    &&& pkt.boot_file_name@ == zeroes(128)
}

/// The options area of a DISCOVER: the message type, the configured
/// options after it, and the terminator.
pub open spec fn discover_opts(cfg: ConfigData) -> Seq<u8> {
    enc_opts(seq![(OPT_MESSAGE_TYPE, seq![MSG_DISCOVER])] + opts_view(cfg.option_list@))
}

/// Whether `pkt` is the DISCOVER this client emits under `cfg` and `xid`.
pub open spec fn is_discover(pkt: Packet, cfg: ConfigData, xid: u32) -> bool {
    &&& client_header(pkt, xid, cfg.client_address@, zeroes(4))
    &&& pkt.options@ == discover_opts(cfg)
}

/// The options area of a REQUEST answering an offer: the message type, the
/// requested address, the configured options, and the terminator.
pub open spec fn request_opts(cfg: ConfigData, requested: Seq<u8>) -> Seq<u8> {
    enc_opts(
        seq![(OPT_MESSAGE_TYPE, seq![MSG_REQUEST]), (OPT_REQUESTED_IP, requested)] + opts_view(
            cfg.option_list@,
        ),
    )
}

/// Whether `pkt` is the REQUEST this client emits for the offered address.
pub open spec fn is_request(
    pkt: Packet,
    cfg: ConfigData,
    xid: u32,
    requested: Seq<u8>,
    server: Seq<u8>,
) -> bool {
    &&& client_header(pkt, xid, cfg.client_address@, server)
    &&& pkt.options@ == request_opts(cfg, requested)
}

/// The options area of a renewal REQUEST: the message type, the configured
/// options, and the terminator; the held address rides in the header.
pub open spec fn renewal_opts(cfg: ConfigData) -> Seq<u8> {
    enc_opts(seq![(OPT_MESSAGE_TYPE, seq![MSG_REQUEST])] + opts_view(cfg.option_list@))
}

/// Whether `pkt` is the renewal REQUEST this client emits for its held
/// address: unicast when `server` names the leasing server, broadcast when
/// `server` is all zeroes.
pub open spec fn is_renewal(
    pkt: Packet,
    cfg: ConfigData,
    xid: u32,
    client: Seq<u8>,
    server: Seq<u8>,
) -> bool {
    &&& client_header(pkt, xid, client, server)
    &&& pkt.options@ == renewal_opts(cfg)
}

/// Whether `pkt` is the RELEASE notification this client emits when it
/// relinquishes its held address.
pub open spec fn is_release_pkt(pkt: Packet, xid: u32, client: Seq<u8>, server: Seq<u8>) -> bool {
    &&& client_header(pkt, xid, client, server)
    &&& pkt.options@ == enc_opts(seq![(OPT_MESSAGE_TYPE, seq![MSG_RELEASE])])
}

/// The message type a packet declares: the one-byte data of its first
/// message-type option, if the options parse and such an option stands.
pub open spec fn spec_msg_type(p: Packet) -> Option<u8> {
    if !opts_ok(p.options@) {
        None
    } else {
        match first_opt_data(parsed(p.options@), OPT_MESSAGE_TYPE) {
            Some(d) => if d.len() == 1 {
                Some(d[0])
            } else {
                None
            },
            None => None,
        }
    }
}

/// The lease duration an ACK grants: its first lease-time option read
/// big-endian, zero without one.
pub open spec fn ack_lease(p: Packet) -> u32 {
    match first_opt_data(parsed(p.options@), OPT_LEASE_TIME) {
        Some(d) => if d.len() == 4 {
            be32_of(d[0], d[1], d[2], d[3])
        } else {
            0u32
        },
        None => 0u32,
    }
}

/// The subnet mask an ACK grants, all zeroes without one.
pub open spec fn ack_subnet(p: Packet) -> Seq<u8> {
    match first_opt_data(parsed(p.options@), OPT_SUBNET_MASK) {
        Some(d) => if d.len() == 4 {
            d
        } else {
            zeroes(4)
        },
        None => zeroes(4),
    }
}

/// The router an ACK names, all zeroes without one.
pub open spec fn ack_router(p: Packet) -> Seq<u8> {
    match first_opt_data(parsed(p.options@), OPT_ROUTER) {
        Some(d) => if d.len() == 4 {
            d
        } else {
            zeroes(4)
        },
        None => zeroes(4),
    }
}

/// The server an ACK speaks for: its server-identifier option, the
/// header's server address without one.
pub open spec fn ack_server(p: Packet) -> Seq<u8> {
    match first_opt_data(parsed(p.options@), OPT_SERVER_ID) {
        Some(d) => if d.len() == 4 {
            d
        } else {
            p.server_addr@
        },
        None => p.server_addr@,
    }
}

/// Whether this packet's fields fit the wire layout.
pub fn packet_wf(p: &Packet) -> (r: bool)
    ensures
        r == wf_packet(*p),
{
    p.client_hw_addr.len() == 16 && p.server_name.len() == 64 && p.boot_file_name.len() == 128
        && p.magik == DHCP_MAGIC
}

/// The message type this packet declares.
pub fn msg_type(p: &Packet) -> (r: Option<u8>)
    ensures
        r == spec_msg_type(*p),
{
    match parse_options(&p.options) {
        Ok(v) => match find_option(&v, OPT_MESSAGE_TYPE) {
            Some(k) => {
                if v[k].data.len() == 1 {
                    Some(v[k].data[0])
                } else {
                    None
                }
            },
            None => None,
        },
        Err(_) => None,
    }
}

/// The lease duration this packet grants.
fn lease_from(p: &Packet) -> (r: u32)
    ensures
        r == ack_lease(*p),
{
    match parse_options(&p.options) {
        Ok(v) => match find_option(&v, OPT_LEASE_TIME) {
            Some(k) => {
                if v[k].data.len() == 4 {
                    join_be32(v[k].data[0], v[k].data[1], v[k].data[2], v[k].data[3])
                } else {
                    0
                }
            },
            None => 0,
        },
        Err(_) => 0,
    }
}

/// The four-byte data of this packet's first option bearing `code`, or the
/// fallback where there is none or its data is not four bytes.
fn addr4_from(p: &Packet, code: u8, fallback: [u8; 4]) -> (r: [u8; 4])
    ensures
        r@ == match first_opt_data(parsed(p.options@), code) {
            Some(d) => if d.len() == 4 {
                d
            } else {
                fallback@
            },
            None => fallback@,
        },
{
    match parse_options(&p.options) {
        Ok(v) => match find_option(&v, code) {
            Some(k) => {
                if v[k].data.len() == 4 {
                    let r: [u8; 4] = [v[k].data[0], v[k].data[1], v[k].data[2], v[k].data[3]];
                    assert(r@ =~= v@[k as int].data@);
                    r
                } else {
                    fallback
                }
            },
            None => fallback,
        },
        Err(_) => fallback,
    }
}

/// Copies an option list, the configured prefix after the given head.
fn append_options(dst: &mut Vec<PacketOption>, src: &Vec<PacketOption>)
    ensures
        opts_view(final(dst)@) == opts_view(old(dst)@) + opts_view(src@),
{
    let n: usize = src.len();
    let mut j: usize = 0;
    while j < n
        invariant
            n == src@.len(),
            j <= n,
            opts_view(dst@) == opts_view(old(dst)@) + opts_view(src@).subrange(0, j as int),
        decreases n - j,
    {
        let ghost pre = opts_view(dst@);
        dst.push(PacketOption { op_code: src[j].op_code, data: copy_bytes(&src[j].data) });
        proof {
            let s = opts_view(src@);
            assert(opts_view(dst@) =~= pre.push(s[j as int]));
            assert(opts_view(old(dst)@) + s.subrange(0, j as int + 1) =~= (opts_view(old(dst)@)
                + s.subrange(0, j as int)).push(s[j as int]));
        }
        j = j + 1;
    }
    proof {
        assert(opts_view(src@).subrange(0, n as int) =~= opts_view(src@));
    }
}

/// Lays out a packet this client emits: the standard header and the given
/// option list, terminated.
fn make_client_packet(xid: u32, client: [u8; 4], server: [u8; 4], opts: &Vec<PacketOption>) -> (r:
    Packet)
    requires
        wf_opts(opts_view(opts@)),
    ensures
        client_header(r, xid, client@, server@),
        r.options@ == enc_opts(opts_view(opts@)),
{
    let area: Vec<u8> = encode_options(opts);
    let r = Packet {
        op_code: 1,
        hw_type: 1,
        hw_addr_len: 6,
        hops: 0,
        xid,
        seconds: 0,
        reserved: 0,
        client_addr: client,
        your_addr: [0u8, 0u8, 0u8, 0u8],
        server_addr: server,
        gateway_addr: [0u8, 0u8, 0u8, 0u8],
        client_hw_addr: zero_bytes(16),
        server_name: zero_bytes(64),
        boot_file_name: zero_bytes(128),
        magik: DHCP_MAGIC,
        options: area,
    };
    proof {
        assert(r.your_addr@ =~= zeroes(4));
        assert(r.gateway_addr@ =~= zeroes(4));
        assert(r.client_hw_addr@ =~= zeroes(16));
        assert(r.server_name@ =~= zeroes(64));
        assert(r.boot_file_name@ =~= zeroes(128));
    }
    r
}

/// Builds the DISCOVER this client emits under `cfg` and `xid`.
pub fn make_discover(cfg: &ConfigData, xid: u32) -> (r: Packet)
    requires
        valid_config(*cfg),
    ensures
        is_discover(r, *cfg, xid),
{
    let mut opts: Vec<PacketOption> = Vec::new();
    let mut d: Vec<u8> = Vec::new();
    d.push(MSG_DISCOVER);
    assert(d@ =~= seq![MSG_DISCOVER]);
    opts.push(PacketOption { op_code: OPT_MESSAGE_TYPE, data: d });
    assert(opts_view(opts@) =~= seq![(OPT_MESSAGE_TYPE, seq![MSG_DISCOVER])]);
    let ghost head = opts_view(opts@);
    append_options(&mut opts, &cfg.option_list);
    assert(opts_view(opts@) == head + opts_view(cfg.option_list@));
    proof {
        assert forall|k: int| 0 <= k < opts_view(opts@).len() implies wf_opt(
            opts_view(opts@)[k],
        ) by {
            if k >= 1 {
                assert(valid_requested_opt(opts_view(cfg.option_list@)[k - 1]));
            }
        }
    }
    let server0: [u8; 4] = [0u8, 0u8, 0u8, 0u8];
    assert(server0@ =~= zeroes(4));
    make_client_packet(xid, cfg.client_address, server0, &opts)
}

/// Builds the REQUEST this client emits for an offered address.
pub fn make_request(cfg: &ConfigData, xid: u32, requested: [u8; 4], server: [u8; 4]) -> (r: Packet)
    requires
        valid_config(*cfg),
    ensures
        is_request(r, *cfg, xid, requested@, server@),
{
    let mut opts: Vec<PacketOption> = Vec::new();
    let mut d: Vec<u8> = Vec::new();
    d.push(MSG_REQUEST);
    assert(d@ =~= seq![MSG_REQUEST]);
    opts.push(PacketOption { op_code: OPT_MESSAGE_TYPE, data: d });
    let mut a: Vec<u8> = Vec::new();
    a.push(requested[0]);
    a.push(requested[1]);
    a.push(requested[2]);
    a.push(requested[3]);
    assert(a@ =~= requested@);
    opts.push(PacketOption { op_code: OPT_REQUESTED_IP, data: a });
    assert(opts_view(opts@) =~= seq![
        (OPT_MESSAGE_TYPE, seq![MSG_REQUEST]),
        (OPT_REQUESTED_IP, requested@),
    ]);
    let ghost head = opts_view(opts@);
    append_options(&mut opts, &cfg.option_list);
    assert(opts_view(opts@) == head + opts_view(cfg.option_list@));
    proof {
        assert forall|k: int| 0 <= k < opts_view(opts@).len() implies wf_opt(
            opts_view(opts@)[k],
        ) by {
            if k >= 2 {
                assert(valid_requested_opt(opts_view(cfg.option_list@)[k - 2]));
            }
        }
    }
    make_client_packet(xid, cfg.client_address, server, &opts)
}

/// Builds the renewal REQUEST this client emits for its held address.
pub fn make_renewal(cfg: &ConfigData, xid: u32, client: [u8; 4], server: [u8; 4]) -> (r: Packet)
    requires
        valid_config(*cfg),
    ensures
        is_renewal(r, *cfg, xid, client@, server@),
{
    let mut opts: Vec<PacketOption> = Vec::new();
    let mut d: Vec<u8> = Vec::new();
    d.push(MSG_REQUEST);
    assert(d@ =~= seq![MSG_REQUEST]);
    opts.push(PacketOption { op_code: OPT_MESSAGE_TYPE, data: d });
    assert(opts_view(opts@) =~= seq![(OPT_MESSAGE_TYPE, seq![MSG_REQUEST])]);
    let ghost head = opts_view(opts@);
    append_options(&mut opts, &cfg.option_list);
    assert(opts_view(opts@) == head + opts_view(cfg.option_list@));
    proof {
        assert forall|k: int| 0 <= k < opts_view(opts@).len() implies wf_opt(
            opts_view(opts@)[k],
        ) by {
            if k >= 1 {
                assert(valid_requested_opt(opts_view(cfg.option_list@)[k - 1]));
            }
        }
    }
    make_client_packet(xid, client, server, &opts)
}

/// Builds the RELEASE notification this client emits.
pub fn make_release(xid: u32, client: [u8; 4], server: [u8; 4]) -> (r: Packet)
    ensures
        is_release_pkt(r, xid, client@, server@),
{
    let mut opts: Vec<PacketOption> = Vec::new();
    let mut d: Vec<u8> = Vec::new();
    d.push(MSG_RELEASE);
    assert(d@ =~= seq![MSG_RELEASE]);
    opts.push(PacketOption { op_code: OPT_MESSAGE_TYPE, data: d });
    assert(opts_view(opts@) =~= seq![(OPT_MESSAGE_TYPE, seq![MSG_RELEASE])]);
    proof {
        assert forall|k: int| 0 <= k < opts_view(opts@).len() implies wf_opt(
            opts_view(opts@)[k],
        ) by {
            assert(opts_view(opts@)[0] == (OPT_MESSAGE_TYPE, seq![MSG_RELEASE]));
        }
    }
    make_client_packet(xid, client, server, &opts)
}

/// Whether a state takes part in the DORA exchange proper.
pub open spec fn in_exchange(s: State) -> bool {
    s == State::Selecting || s == State::Requesting
}

/// Whether a state holds a negotiated lease.
pub open spec fn bound_like(s: State) -> bool {
    s == State::Bound || s == State::Renewing || s == State::Rebinding
}

/// Whether a state has an outstanding wait that a received packet or a
/// timeout can resolve.
pub open spec fn rcv_legal(s: State) -> bool {
    in_exchange(s) || s == State::Renewing || s == State::Rebinding
}

/// What the engine answers to a received packet.
#[derive(Debug, Clone, PartialEq, Eq)]
pub enum ReceiveOutcome {
    /// Noise: a transaction-id mismatch, a rejected or unusable packet, or
    /// a message the current state does not wait for. Nothing changed.
    Dropped,
    /// An offer was accepted: the machine moved to REQUESTING and this
    /// REQUEST is to be sent.
    SendRequest(Packet),
    /// An acknowledgement was accepted: the machine is BOUND and the lease
    /// parameters are in the snapshot.
    BoundNow,
    /// A NAK threw the exchange back: the machine is SELECTING again and
    /// this fresh DISCOVER is to be sent.
    RetryDiscover(Packet),
}

/// What the engine answers to a wait that timed out.
#[derive(Debug, Clone, PartialEq, Eq)]
pub enum TimeoutOutcome {
    /// The retry budget still has room: this packet is to be sent again.
    Retry(Packet),
    /// No retransmission is owed: the lease timers alone drive RENEWING
    /// and REBINDING onwards.
    Ignored,
}

/// Whether a received packet is the OFFER a SELECTING machine accepts:
/// the transaction id matches, the verdict is not a rejection, and what
/// the verdict leaves standing is a well-formed OFFER.
pub open spec fn rcv_offer_ok(s: Dhcp4, pkt: Packet, d: CallbackDecision) -> bool {
    &&& s.mode.state == State::Selecting
    &&& pkt.xid == s.xid
    &&& !(d is Reject)
    &&& wf_packet(chosen_packet(pkt, d))
    &&& spec_msg_type(chosen_packet(pkt, d)) == Some(MSG_OFFER)
}

/// Whether a received packet is the ACK a waiting machine accepts.
pub open spec fn rcv_ack_ok(s: Dhcp4, pkt: Packet, d: CallbackDecision) -> bool {
    &&& s.mode.state == State::Requesting || s.mode.state == State::Renewing || s.mode.state
        == State::Rebinding
    &&& pkt.xid == s.xid
    &&& !(d is Reject)
    &&& wf_packet(chosen_packet(pkt, d))
    &&& spec_msg_type(chosen_packet(pkt, d)) == Some(MSG_ACK)
}

/// Whether a received packet is the NAK a REQUESTING machine acts on.
pub open spec fn rcv_nak_ok(s: Dhcp4, pkt: Packet, d: CallbackDecision) -> bool {
    &&& s.mode.state == State::Requesting
    &&& pkt.xid == s.xid
    &&& !(d is Reject)
    &&& wf_packet(chosen_packet(pkt, d))
    &&& spec_msg_type(chosen_packet(pkt, d)) == Some(MSG_NAK)
}

/// The snapshot's negotiated lease fields are the same in both.
pub open spec fn same_lease(a: ModeData, b: ModeData) -> bool {
    &&& a.client_address@ == b.client_address@
    &&& a.server_address@ == b.server_address@
    &&& a.router_address@ == b.router_address@
    &&& a.subnet_mask@ == b.subnet_mask@
    &&& a.lease_time == b.lease_time
    &&& a.reply_packet == b.reply_packet
}

/// What accepting an offer leaves behind: REQUESTING, exactly the one
/// accepted offer held, the first REQUEST attempt out, all else untouched.
pub open spec fn after_offer(
    o: Dhcp4,
    n: Dhcp4,
    pkt: Packet,
    d: CallbackDecision,
    req: Packet,
) -> bool {
    let c = chosen_packet(pkt, d);
    &&& n.mode.state == State::Requesting
    &&& n.selected_offer == Some(c)
    &&& n.request_attempts == 1
    &&& is_request(req, o.mode.config_data, o.xid, c.your_addr@, c.server_addr@)
    &&& n.mode.config_data == o.mode.config_data
    &&& n.mode.client_mac_address@ == o.mode.client_mac_address@
    &&& same_lease(n.mode, o.mode)
    &&& n.xid == o.xid
    &&& n.discover_attempts == o.discover_attempts
    &&& n.start_pending == o.start_pending
}

/// What accepting an acknowledgement leaves behind: BOUND, the lease
/// parameters read from the ACK, the ACK held as the reply packet, and the
/// pending start satisfied.
pub open spec fn after_ack(o: Dhcp4, n: Dhcp4, pkt: Packet, d: CallbackDecision) -> bool {
    let c = chosen_packet(pkt, d);
    &&& n.mode.state == State::Bound
    &&& n.mode.client_address@ == c.your_addr@
    &&& n.mode.server_address@ == ack_server(c)
    &&& n.mode.router_address@ == ack_router(c)
    &&& n.mode.subnet_mask@ == ack_subnet(c)
    &&& n.mode.lease_time == ack_lease(c)
    &&& n.mode.reply_packet == Some(c)
    &&& n.mode.config_data == o.mode.config_data
    &&& n.mode.client_mac_address@ == o.mode.client_mac_address@
    &&& n.xid == o.xid
    &&& n.discover_attempts == o.discover_attempts
    &&& n.request_attempts == o.request_attempts
    &&& n.selected_offer is None
    &&& !n.start_pending
}

/// What a NAK with budget to spare leaves behind: SELECTING again, one
/// more DISCOVER attempt on the books, no offer held.
pub open spec fn after_nak_retry(o: Dhcp4, n: Dhcp4, dpkt: Packet) -> bool {
    &&& n.mode.state == State::Selecting
    &&& n.discover_attempts == o.discover_attempts + 1
    &&& n.request_attempts == 0
    &&& n.selected_offer is None
    &&& is_discover(dpkt, o.mode.config_data, o.xid)
    &&& n.mode.config_data == o.mode.config_data
    &&& n.mode.client_mac_address@ == o.mode.client_mac_address@
    &&& same_lease(n.mode, o.mode)
    &&& n.xid == o.xid
    &&& n.start_pending == o.start_pending
}

/// What an exhausted retry budget leaves behind: INIT, the attempt
/// counters cleared, the pending start failed.
pub open spec fn after_exhaust(o: Dhcp4, n: Dhcp4) -> bool {
    &&& n.mode.state == State::Init
    &&& n.discover_attempts == 0
    &&& n.request_attempts == 0
    &&& n.selected_offer is None
    &&& !n.start_pending
    &&& n.mode.config_data == o.mode.config_data
    &&& n.mode.client_mac_address@ == o.mode.client_mac_address@
    &&& same_lease(n.mode, o.mode)
    &&& n.xid == o.xid
}

/// What a timer transition leaves behind: only the state moved.
pub open spec fn after_timer(o: Dhcp4, n: Dhcp4, st: State) -> bool {
    &&& n.mode.state == st
    &&& n.mode.config_data == o.mode.config_data
    &&& n.mode.client_mac_address@ == o.mode.client_mac_address@
    &&& same_lease(n.mode, o.mode)
    &&& n.xid == o.xid
    &&& n.discover_attempts == o.discover_attempts
    &&& n.request_attempts == o.request_attempts
    &&& n.selected_offer == o.selected_offer
    &&& n.start_pending == o.start_pending
}

/// The lease state machine. Exactly one DORA exchange or lease is in
/// flight per machine; every transition is a call on it, and each call
/// answers with what the host must send or conclude.
pub struct Dhcp4 {
    pub mode: ModeData,
    pub xid: u32,
    pub discover_attempts: u32,
    pub request_attempts: u32,
    pub selected_offer: Option<Packet>,
    pub start_pending: bool,
}

impl Dhcp4 {
    /// The machine's structural invariant. REQUESTING is only ever held
    /// with exactly one accepted offer on hand — SELECTING put it there —
    /// and a bound machine always holds the reply that bound it.
    pub open spec fn inv(self) -> bool {
        &&& self.mode.client_mac_address@.len() == 32
        &&& self.mode.state != State::Stopped ==> valid_config(self.mode.config_data)
        &&& self.mode.state == State::Selecting ==> self.discover_attempts >= 1
        &&& self.mode.state == State::Requesting ==> self.request_attempts >= 1
        &&& self.mode.state == State::Requesting ==> (match self.selected_offer {
            Some(o) => wf_packet(o),
            None => false,
        })
        &&& bound_like(self.mode.state) ==> (match self.mode.reply_packet {
            Some(p) => wf_packet(p),
            None => false,
        })
    }

    /// A fresh machine: STOPPED, unconfigured, holding nothing.
    pub fn new() -> (r: Dhcp4)
        ensures
            r.inv(),
            r.mode.state == State::Stopped,
            lease_cleared(r.mode),
            r.mode.reply_packet is None,
            r.selected_offer is None,
            !r.start_pending,
            r.discover_attempts == 0,
            r.request_attempts == 0,
    {
        Dhcp4 {
            mode: ModeData::default(),
            xid: 0,
            discover_attempts: 0,
            request_attempts: 0,
            selected_offer: None,
            start_pending: false,
        }
    }

    /// Applies a configuration. Legal only while STOPPED; moves to INIT
    /// and fully resets any prior lease state. Fails with `AlreadyStarted`
    /// out of STOPPED and with `InvalidConfig`, before any state change,
    /// on a configuration that fails validation.
    pub fn configure(&mut self, cfg: ConfigData) -> (r: Result<(), Dhcp4Error>)
        requires
            old(self).inv(),
        ensures
            final(self).inv(),
            match r {
                Ok(()) => {
                    &&& old(self).mode.state == State::Stopped
                    &&& valid_config(cfg)
                    &&& final(self).mode.state == State::Init
                    &&& final(self).mode.config_data == cfg
                    &&& lease_cleared(final(self).mode)
                    &&& final(self).mode.reply_packet is None
                    &&& final(self).mode.client_mac_address@ == old(self).mode.client_mac_address@
                    &&& final(self).selected_offer is None
                    &&& !final(self).start_pending
                    &&& final(self).discover_attempts == 0
                    &&& final(self).request_attempts == 0
                    &&& final(self).xid == old(self).xid
                },
                Err(Dhcp4Error::AlreadyStarted) => old(self).mode.state != State::Stopped
                    && *final(self) == *old(self),
                Err(Dhcp4Error::InvalidConfig) => old(self).mode.state == State::Stopped
                    && !valid_config(cfg) && *final(self) == *old(self),
                Err(_) => false,
            },
    {
        if !matches!(self.mode.state, State::Stopped) {
            return Err(Dhcp4Error::AlreadyStarted);
        }
        match validate(&cfg) {
            Ok(()) => {},
            Err(e) => {
                return Err(e);
            },
        }
        self.mode.state = State::Init;
        self.mode.config_data = cfg;
        self.mode.client_address = [0u8, 0u8, 0u8, 0u8];
        self.mode.server_address = [0u8, 0u8, 0u8, 0u8];
        self.mode.router_address = [0u8, 0u8, 0u8, 0u8];
        self.mode.subnet_mask = [0u8, 0u8, 0u8, 0u8];
        self.mode.lease_time = 0;
        self.mode.reply_packet = None;
        self.selected_offer = None;
        self.start_pending = false;
        self.discover_attempts = 0;
        self.request_attempts = 0;
        assert(self.mode.client_address@ =~= zeroes(4));
        Ok(())
    }

    /// A read-only snapshot of the negotiated lease state.
    pub fn get_mode_data(&self) -> (r: ModeData)
        ensures
            mode_eq(r, self.mode),
    {
        ModeData {
            state: self.mode.state,
            config_data: copy_config(&self.mode.config_data),
            client_address: self.mode.client_address,
            client_mac_address: copy_bytes(&self.mode.client_mac_address),
            server_address: self.mode.server_address,
            router_address: self.mode.router_address,
            subnet_mask: self.mode.subnet_mask,
            lease_time: self.mode.lease_time,
            reply_packet: match &self.mode.reply_packet {
                Some(p) => Some(copy_packet(p)),
                None => None,
            },
        }
    }

    /// The address this client is bound to, all zeroes while none is.
    pub fn bound_ip(&self) -> (r: [u8; 4])
        ensures
            r@ == self.mode.client_address@,
    {
        self.mode.client_address
    }

    /// Begins the DORA exchange under the host-drawn transaction id: INIT
    /// moves to SELECTING and the returned DISCOVER is to be broadcast.
    /// The completion owed to this start is reported by the call that
    /// concludes the exchange. Fails with `AlreadyStarted` while an
    /// exchange is in flight and with `InvalidState` anywhere else.
    pub fn start(&mut self, xid: u32) -> (r: Result<Packet, Dhcp4Error>)
        requires
            old(self).inv(),
        ensures
            final(self).inv(),
            match r {
                Ok(pkt) => {
                    &&& old(self).mode.state == State::Init
                    &&& final(self).mode.state == State::Selecting
                    &&& final(self).xid == xid
                    &&& final(self).discover_attempts == 1
                    &&& final(self).request_attempts == 0
                    &&& final(self).start_pending
                    &&& final(self).selected_offer is None
                    &&& is_discover(pkt, old(self).mode.config_data, xid)
                    &&& final(self).mode.config_data == old(self).mode.config_data
                    &&& final(self).mode.client_mac_address@ == old(self).mode.client_mac_address@
                    &&& same_lease(final(self).mode, old(self).mode)
                },
                Err(Dhcp4Error::AlreadyStarted) => in_exchange(old(self).mode.state) && *final(self) == *old(self),
                Err(Dhcp4Error::InvalidState) => old(self).mode.state != State::Init && !in_exchange(
                    old(self).mode.state,
                ) && *final(self) == *old(self),
                Err(_) => false,
            },
    {
        match self.mode.state {
            State::Init => {},
            State::Selecting | State::Requesting => {
                return Err(Dhcp4Error::AlreadyStarted);
            },
            _ => {
                return Err(Dhcp4Error::InvalidState);
            },
        }
        let pkt = make_discover(&self.mode.config_data, xid);
        self.mode.state = State::Selecting;
        self.xid = xid;
        self.discover_attempts = 1;
        self.request_attempts = 0;
        self.selected_offer = None;
        self.start_pending = true;
        Ok(pkt)
    }

    /// Feeds in a packet the coordinator delivered, with the host
    /// callback's verdict on it. Noise — a transaction-id mismatch, a
    /// rejection, a packet that does not decode, a message the state does
    /// not wait for — is dropped and nothing changes. An OFFER accepted
    /// while SELECTING moves to REQUESTING and answers the REQUEST to
    /// send; an ACK accepted while REQUESTING, RENEWING or REBINDING
    /// binds the lease; a NAK while REQUESTING falls back to SELECTING
    /// with a fresh DISCOVER while the discover budget lasts, and
    /// otherwise fails the exchange with `LeaseTimeout`, back in INIT.
    pub fn receive(&mut self, pkt: Packet, decision: CallbackDecision) -> (r: Result<
        ReceiveOutcome,
        Dhcp4Error,
    >)
        requires
            old(self).inv(),
        ensures
            final(self).inv(),
            match r {
                Ok(out) => match out {
                    ReceiveOutcome::Dropped => {
                        &&& rcv_legal(old(self).mode.state)
                        &&& !rcv_offer_ok(*old(self), pkt, decision)
                        &&& !rcv_ack_ok(*old(self), pkt, decision)
                        &&& !rcv_nak_ok(*old(self), pkt, decision)
                        &&& *final(self) == *old(self)
                    },
                    ReceiveOutcome::SendRequest(req) => {
                        &&& rcv_offer_ok(*old(self), pkt, decision)
                        &&& after_offer(*old(self), *final(self), pkt, decision, req)
                    },
                    ReceiveOutcome::BoundNow => {
                        &&& rcv_ack_ok(*old(self), pkt, decision)
                        &&& after_ack(*old(self), *final(self), pkt, decision)
                    },
                    ReceiveOutcome::RetryDiscover(d) => {
                        &&& rcv_nak_ok(*old(self), pkt, decision)
                        &&& old(self).discover_attempts < old(self).mode.config_data.discover_try_count
                        &&& after_nak_retry(*old(self), *final(self), d)
                    },
                },
                Err(Dhcp4Error::LeaseTimeout) => {
                    &&& rcv_nak_ok(*old(self), pkt, decision)
                    &&& old(self).discover_attempts >= old(self).mode.config_data.discover_try_count
                    &&& after_exhaust(*old(self), *final(self))
                },
                Err(Dhcp4Error::InvalidState) => !rcv_legal(old(self).mode.state) && *final(self)
                    == *old(self),
                Err(_) => false,
            },
    {
        let legal: bool = matches!(
            self.mode.state,
            State::Selecting | State::Requesting | State::Renewing | State::Rebinding
        );
        if !legal {
            return Err(Dhcp4Error::InvalidState);
        }
        if pkt.xid != self.xid {
            return Ok(ReceiveOutcome::Dropped);
        }
        let chosen: Packet = match decision {
            CallbackDecision::Reject => {
                return Ok(ReceiveOutcome::Dropped);
            },
            CallbackDecision::Accept => pkt,
            CallbackDecision::Replace(np) => np,
        };
        if !packet_wf(&chosen) {
            return Ok(ReceiveOutcome::Dropped);
        }
        let mt: Option<u8> = msg_type(&chosen);
        let is_offer: bool = match mt {
            Some(t) => t == MSG_OFFER,
            None => false,
        };
        let is_ack: bool = match mt {
            Some(t) => t == MSG_ACK,
            None => false,
        };
        let is_nak: bool = match mt {
            Some(t) => t == MSG_NAK,
            None => false,
        };
        match self.mode.state {
            State::Selecting => {
                if !is_offer {
                    return Ok(ReceiveOutcome::Dropped);
                }
                assert(valid_config(self.mode.config_data));
                let your: [u8; 4] = chosen.your_addr;
                let srv: [u8; 4] = chosen.server_addr;
                let req = make_request(&self.mode.config_data, self.xid, your, srv);
                self.mode.state = State::Requesting;
                self.request_attempts = 1;
                self.selected_offer = Some(chosen);
                Ok(ReceiveOutcome::SendRequest(req))
            },
            State::Requesting | State::Renewing | State::Rebinding => {
                if is_ack {
                    let lease: u32 = lease_from(&chosen);
                    let zero4: [u8; 4] = [0u8, 0u8, 0u8, 0u8];
                    assert(zero4@ =~= zeroes(4));
                    let subnet: [u8; 4] = addr4_from(&chosen, OPT_SUBNET_MASK, zero4);
                    let router: [u8; 4] = addr4_from(&chosen, OPT_ROUTER, zero4);
                    let server: [u8; 4] = addr4_from(&chosen, OPT_SERVER_ID, chosen.server_addr);
                    self.mode.state = State::Bound;
                    self.mode.client_address = chosen.your_addr;
                    self.mode.server_address = server;
                    self.mode.router_address = router;
                    self.mode.subnet_mask = subnet;
                    self.mode.lease_time = lease;
                    self.mode.reply_packet = Some(chosen);
                    self.selected_offer = None;
                    self.start_pending = false;
                    Ok(ReceiveOutcome::BoundNow)
                } else if is_nak && matches!(self.mode.state, State::Requesting) {
                    if self.discover_attempts < self.mode.config_data.discover_try_count {
                        assert(valid_config(self.mode.config_data));
                        let d = make_discover(&self.mode.config_data, self.xid);
                        self.mode.state = State::Selecting;
                        self.discover_attempts = self.discover_attempts + 1;
                        self.request_attempts = 0;
                        self.selected_offer = None;
                        Ok(ReceiveOutcome::RetryDiscover(d))
                    } else {
                        self.mode.state = State::Init;
                        self.discover_attempts = 0;
                        self.request_attempts = 0;
                        self.selected_offer = None;
                        self.start_pending = false;
                        Err(Dhcp4Error::LeaseTimeout)
                    }
                } else {
                    Ok(ReceiveOutcome::Dropped)
                }
            },
            _ => {
                assert(false);
                Err(Dhcp4Error::InvalidState)
            },
        }
    }

    /// Feeds in the timeout of the outstanding wait. While the budget
    /// lasts the same packet class is rebuilt and owed another send; a
    /// spent budget fails the exchange with `LeaseTimeout`, back in INIT;
    /// RENEWING and REBINDING owe no retransmission — their timers drive
    /// them. Fails with `InvalidState` where no wait can be outstanding.
    pub fn wait_timed_out(&mut self) -> (r: Result<TimeoutOutcome, Dhcp4Error>)
        requires
            old(self).inv(),
        ensures
            final(self).inv(),
            match r {
                Ok(TimeoutOutcome::Retry(p)) => {
                    ||| {
                        &&& old(self).mode.state == State::Selecting
                        &&& old(self).discover_attempts < old(self).mode.config_data.discover_try_count
                        &&& final(self).discover_attempts == old(self).discover_attempts + 1
                        &&& final(self).request_attempts == old(self).request_attempts
                        &&& is_discover(p, old(self).mode.config_data, old(self).xid)
                        &&& final(self).mode == old(self).mode
                        &&& final(self).xid == old(self).xid
                        &&& final(self).selected_offer == old(self).selected_offer
                        &&& final(self).start_pending == old(self).start_pending
                    }
                    ||| {
                        &&& old(self).mode.state == State::Requesting
                        &&& old(self).request_attempts < old(self).mode.config_data.request_try_count
                        &&& final(self).request_attempts == old(self).request_attempts + 1
                        &&& final(self).discover_attempts == old(self).discover_attempts
                        &&& (match old(self).selected_offer {
                            Some(o) => is_request(
                                p,
                                old(self).mode.config_data,
                                old(self).xid,
                                o.your_addr@,
                                o.server_addr@,
                            ),
                            None => false,
                        })
                        &&& final(self).mode == old(self).mode
                        &&& final(self).xid == old(self).xid
                        &&& final(self).selected_offer == old(self).selected_offer
                        &&& final(self).start_pending == old(self).start_pending
                    }
                },
                Ok(TimeoutOutcome::Ignored) => (old(self).mode.state == State::Renewing || old(self).mode.state == State::Rebinding) && *final(self) == *old(self),
                Err(Dhcp4Error::LeaseTimeout) => {
                    &&& {
                        ||| old(self).mode.state == State::Selecting && old(self).discover_attempts
                            >= old(self).mode.config_data.discover_try_count
                        ||| old(self).mode.state == State::Requesting && old(self).request_attempts
                            >= old(self).mode.config_data.request_try_count
                    }
                    &&& after_exhaust(*old(self), *final(self))
                },
                Err(Dhcp4Error::InvalidState) => !rcv_legal(old(self).mode.state) && *final(self)
                    == *old(self),
                Err(_) => false,
            },
    {
        match self.mode.state {
            State::Selecting => {
                if self.discover_attempts < self.mode.config_data.discover_try_count {
                    assert(valid_config(self.mode.config_data));
                    let p = make_discover(&self.mode.config_data, self.xid);
                    self.discover_attempts = self.discover_attempts + 1;
                    Ok(TimeoutOutcome::Retry(p))
                } else {
                    self.mode.state = State::Init;
                    self.discover_attempts = 0;
                    self.request_attempts = 0;
                    self.selected_offer = None;
                    self.start_pending = false;
                    Err(Dhcp4Error::LeaseTimeout)
                }
            },
            State::Requesting => {
                if self.request_attempts < self.mode.config_data.request_try_count {
                    assert(valid_config(self.mode.config_data));
                    let (your, srv): ([u8; 4], [u8; 4]) = match &self.selected_offer {
                        Some(o) => (o.your_addr, o.server_addr),
                        None => {
                            assert(false);
                            ([0u8, 0u8, 0u8, 0u8], [0u8, 0u8, 0u8, 0u8])
                        },
                    };
                    let p = make_request(&self.mode.config_data, self.xid, your, srv);
                    self.request_attempts = self.request_attempts + 1;
                    Ok(TimeoutOutcome::Retry(p))
                } else {
                    self.mode.state = State::Init;
                    self.discover_attempts = 0;
                    self.request_attempts = 0;
                    self.selected_offer = None;
                    self.start_pending = false;
                    Err(Dhcp4Error::LeaseTimeout)
                }
            },
            State::Renewing | State::Rebinding => Ok(TimeoutOutcome::Ignored),
            _ => Err(Dhcp4Error::InvalidState),
        }
    }

    /// The timeout the outstanding wait was armed with: the configured
    /// per-attempt entry for the attempt now in flight, the last entry
    /// reused once the sequence runs out.
    pub fn current_timeout(&self) -> (r: Option<u32>)
        requires
            self.inv(),
        ensures
            r == spec_current_timeout(*self),
    {
        match self.mode.state {
            State::Selecting => {
                if self.mode.config_data.discover_try_timeout.len() > 0 {
                    Some(
                        crate::config::timeout_for(
                            &self.mode.config_data.discover_try_timeout,
                            self.discover_attempts,
                        ),
                    )
                } else {
                    None
                }
            },
            State::Requesting => {
                if self.mode.config_data.request_try_timeout.len() > 0 {
                    Some(
                        crate::config::timeout_for(
                            &self.mode.config_data.request_try_timeout,
                            self.request_attempts,
                        ),
                    )
                } else {
                    None
                }
            },
            _ => None,
        }
    }

    /// The lease clock's first deadline: at half the lease a bound machine
    /// is owed renewal.
    pub fn renewal_deadline(&self) -> (r: u32)
        ensures
            r == self.mode.lease_time / 2,
    {
        self.mode.lease_time / 2
    }

    /// The lease clock's second deadline: at seven eighths of the lease a
    /// renewing machine falls back to rebinding.
    pub fn rebind_deadline(&self) -> (r: u32)
        ensures
            r == self.mode.lease_time - self.mode.lease_time / 8,
    {
        self.mode.lease_time - self.mode.lease_time / 8
    }

    /// Half the lease has elapsed: BOUND moves to RENEWING and the
    /// returned renewal REQUEST is to be unicast to the leasing server.
    pub fn renewal_due(&mut self) -> (r: Result<Packet, Dhcp4Error>)
        requires
            old(self).inv(),
        ensures
            final(self).inv(),
            match r {
                Ok(p) => {
                    &&& old(self).mode.state == State::Bound
                    &&& after_timer(*old(self), *final(self), State::Renewing)
                    &&& is_renewal(
                        p,
                        old(self).mode.config_data,
                        old(self).xid,
                        old(self).mode.client_address@,
                        old(self).mode.server_address@,
                    )
                },
                Err(Dhcp4Error::InvalidState) => old(self).mode.state != State::Bound && *final(self) == *old(self),
                Err(_) => false,
            },
    {
        if !matches!(self.mode.state, State::Bound) {
            return Err(Dhcp4Error::InvalidState);
        }
        assert(valid_config(self.mode.config_data));
        let p = make_renewal(
            &self.mode.config_data,
            self.xid,
            self.mode.client_address,
            self.mode.server_address,
        );
        self.mode.state = State::Renewing;
        Ok(p)
    }

    /// Seven eighths of the lease have elapsed without renewal: RENEWING
    /// moves to REBINDING and the returned renewal REQUEST is to be
    /// broadcast.
    pub fn rebind_due(&mut self) -> (r: Result<Packet, Dhcp4Error>)
        requires
            old(self).inv(),
        ensures
            final(self).inv(),
            match r {
                Ok(p) => {
                    &&& old(self).mode.state == State::Renewing
                    &&& after_timer(*old(self), *final(self), State::Rebinding)
                    &&& is_renewal(
                        p,
                        old(self).mode.config_data,
                        old(self).xid,
                        old(self).mode.client_address@,
                        zeroes(4),
                    )
                },
                Err(Dhcp4Error::InvalidState) => old(self).mode.state != State::Renewing && *final(self) == *old(self),
                Err(_) => false,
            },
    {
        if !matches!(self.mode.state, State::Renewing) {
            return Err(Dhcp4Error::InvalidState);
        }
        assert(valid_config(self.mode.config_data));
        let zero4: [u8; 4] = [0u8, 0u8, 0u8, 0u8];
        assert(zero4@ =~= zeroes(4));
        let p = make_renewal(&self.mode.config_data, self.xid, self.mode.client_address, zero4);
        self.mode.state = State::Rebinding;
        Ok(p)
    }

    /// The lease ran out without a renewal: the address is lost, the
    /// negotiated parameters are zeroed, and the machine reverts to INIT.
    pub fn lease_expired(&mut self) -> (r: Result<(), Dhcp4Error>)
        requires
            old(self).inv(),
        ensures
            final(self).inv(),
            match r {
                Ok(()) => {
                    &&& bound_like(old(self).mode.state)
                    &&& final(self).mode.state == State::Init
                    &&& lease_cleared(final(self).mode)
                    &&& final(self).mode.reply_packet == old(self).mode.reply_packet
                    &&& final(self).mode.config_data == old(self).mode.config_data
                    &&& final(self).mode.client_mac_address@ == old(self).mode.client_mac_address@
                    &&& final(self).xid == old(self).xid
                    &&& final(self).selected_offer == old(self).selected_offer
                    &&& !final(self).start_pending
                    &&& final(self).discover_attempts == 0
                    &&& final(self).request_attempts == 0
                },
                Err(Dhcp4Error::InvalidState) => !bound_like(old(self).mode.state) && *final(self)
                    == *old(self),
                Err(_) => false,
            },
    {
        if !matches!(self.mode.state, State::Bound | State::Renewing | State::Rebinding) {
            return Err(Dhcp4Error::InvalidState);
        }
        self.mode.state = State::Init;
        self.mode.client_address = [0u8, 0u8, 0u8, 0u8];
        self.mode.server_address = [0u8, 0u8, 0u8, 0u8];
        self.mode.router_address = [0u8, 0u8, 0u8, 0u8];
        self.mode.subnet_mask = [0u8, 0u8, 0u8, 0u8];
        self.mode.lease_time = 0;
        self.start_pending = false;
        self.discover_attempts = 0;
        self.request_attempts = 0;
        assert(self.mode.client_address@ =~= zeroes(4));
        Ok(())
    }

    /// A caller-triggered renewal. Legal only with a lease on hand:
    /// without `force_rebind` the machine renews — RENEWING, the REQUEST
    /// unicast to the leasing server; with it the machine goes straight to
    /// the REBINDING behaviour — the REQUEST broadcast.
    pub fn renew_rebind(&mut self, force_rebind: bool) -> (r: Result<Packet, Dhcp4Error>)
        requires
            old(self).inv(),
        ensures
            final(self).inv(),
            match r {
                Ok(p) => {
                    &&& bound_like(old(self).mode.state)
                    &&& if force_rebind {
                        after_timer(*old(self), *final(self), State::Rebinding) && is_renewal(
                            p,
                            old(self).mode.config_data,
                            old(self).xid,
                            old(self).mode.client_address@,
                            zeroes(4),
                        )
                    } else {
                        after_timer(*old(self), *final(self), State::Renewing) && is_renewal(
                            p,
                            old(self).mode.config_data,
                            old(self).xid,
                            old(self).mode.client_address@,
                            old(self).mode.server_address@,
                        )
                    }
                },
                Err(Dhcp4Error::InvalidState) => !bound_like(old(self).mode.state) && *final(self)
                    == *old(self),
                Err(_) => false,
            },
    {
        if !matches!(self.mode.state, State::Bound | State::Renewing | State::Rebinding) {
            return Err(Dhcp4Error::InvalidState);
        }
        assert(valid_config(self.mode.config_data));
        if force_rebind {
            let zero4: [u8; 4] = [0u8, 0u8, 0u8, 0u8];
            assert(zero4@ =~= zeroes(4));
            let p = make_renewal(&self.mode.config_data, self.xid, self.mode.client_address, zero4);
            self.mode.state = State::Rebinding;
            Ok(p)
        } else {
            let p = make_renewal(
                &self.mode.config_data,
                self.xid,
                self.mode.client_address,
                self.mode.server_address,
            );
            self.mode.state = State::Renewing;
            Ok(p)
        }
    }

    /// Relinquishes the lease. With one on hand the machine answers the
    /// RELEASE notification to send best-effort and reverts to INIT with
    /// the negotiated parameters zeroed; anywhere else it is a no-op.
    /// Always succeeds as a local state change.
    pub fn release(&mut self) -> (r: Result<Option<Packet>, Dhcp4Error>)
        requires
            old(self).inv(),
        ensures
            final(self).inv(),
            match r {
                Ok(Some(p)) => {
                    &&& bound_like(old(self).mode.state)
                    &&& is_release_pkt(
                        p,
                        old(self).xid,
                        old(self).mode.client_address@,
                        old(self).mode.server_address@,
                    )
                    &&& final(self).mode.state == State::Init
                    &&& lease_cleared(final(self).mode)
                    &&& final(self).mode.reply_packet == old(self).mode.reply_packet
                    &&& final(self).mode.config_data == old(self).mode.config_data
                    &&& final(self).mode.client_mac_address@ == old(self).mode.client_mac_address@
                    &&& final(self).xid == old(self).xid
                    &&& !final(self).start_pending
                    &&& final(self).discover_attempts == 0
                    &&& final(self).request_attempts == 0
                },
                Ok(None) => !bound_like(old(self).mode.state) && *final(self) == *old(self),
                Err(_) => false,
            },
    {
        if !matches!(self.mode.state, State::Bound | State::Renewing | State::Rebinding) {
            return Ok(None);
        }
        let p = make_release(self.xid, self.mode.client_address, self.mode.server_address);
        self.mode.state = State::Init;
        self.mode.client_address = [0u8, 0u8, 0u8, 0u8];
        self.mode.server_address = [0u8, 0u8, 0u8, 0u8];
        self.mode.router_address = [0u8, 0u8, 0u8, 0u8];
        self.mode.subnet_mask = [0u8, 0u8, 0u8, 0u8];
        self.mode.lease_time = 0;
        self.start_pending = false;
        self.discover_attempts = 0;
        self.request_attempts = 0;
        self.selected_offer = None;
        assert(self.mode.client_address@ =~= zeroes(4));
        Ok(Some(p))
    }

    /// Stops unconditionally: pending timers and waits are for the host to
    /// cancel, the lease state is discarded, and the machine is STOPPED
    /// until the next `configure`.
    pub fn stop(&mut self) -> (r: Result<(), Dhcp4Error>)
        requires
            old(self).inv(),
        ensures
            final(self).inv(),
            r is Ok,
            final(self).mode.state == State::Stopped,
            lease_cleared(final(self).mode),
            final(self).mode.reply_packet is None,
            final(self).selected_offer is None,
            !final(self).start_pending,
            final(self).discover_attempts == 0,
            final(self).request_attempts == 0,
            final(self).mode.config_data == old(self).mode.config_data,
            final(self).mode.client_mac_address@ == old(self).mode.client_mac_address@,
            final(self).xid == old(self).xid,
    {
        self.mode.state = State::Stopped;
        self.mode.client_address = [0u8, 0u8, 0u8, 0u8];
        self.mode.server_address = [0u8, 0u8, 0u8, 0u8];
        self.mode.router_address = [0u8, 0u8, 0u8, 0u8];
        self.mode.subnet_mask = [0u8, 0u8, 0u8, 0u8];
        self.mode.lease_time = 0;
        self.mode.reply_packet = None;
        self.selected_offer = None;
        self.start_pending = false;
        self.discover_attempts = 0;
        self.request_attempts = 0;
        assert(self.mode.client_address@ =~= zeroes(4));
        Ok(())
    }

    /// Pure delegation to the codec: derives a packet from an optional
    /// seed, available in every state, touching no lease state.
    pub fn build(
        &self,
        seed: Option<&Packet>,
        delete_list: &Vec<u8>,
        append_list: &Vec<PacketOption>,
    ) -> (r: Result<Packet, Dhcp4Error>)
        ensures
            match r {
                Ok(q) => crate::packet::build_ok_to(
                    crate::packet::seed_val(seed),
                    delete_list@,
                    opts_view(append_list@),
                    q,
                ) && wf_packet(q),
                Err(e) => match e {
                    Dhcp4Error::MalformedPacket => !crate::packet::build_inputs_ok(
                        crate::packet::seed_val(seed),
                        opts_view(append_list@),
                    ),
                    Dhcp4Error::OptionsOverflow => crate::packet::build_inputs_ok(
                        crate::packet::seed_val(seed),
                        opts_view(append_list@),
                    ) && crate::FIXED_HEADER_LEN + crate::packet::build_area(
                        crate::packet::seed_val(seed),
                        delete_list@,
                        opts_view(append_list@),
                    ).len() > crate::MAX_PACKET_LEN,
                    _ => false,
                },
            },
    {
        crate::packet::build(seed, delete_list, append_list)
    }

    /// Pure delegation to the codec: decodes a packet's options area.
    pub fn parse(&self, packet: &Packet) -> (r: Result<Vec<PacketOption>, Dhcp4Error>)
        ensures
            match r {
                Ok(v) => crate::options::parse_opts_from(packet.options@, 0) == Some(
                    opts_view(v@),
                ),
                Err(e) => e == Dhcp4Error::MalformedPacket && crate::options::parse_opts_from(
                    packet.options@,
                    0,
                ) is None,
            },
    {
        parse_options(&packet.options)
    }
}

/// The timeout the outstanding wait was armed with, where one is.
pub open spec fn spec_current_timeout(s: Dhcp4) -> Option<u32> {
    if s.mode.state == State::Selecting && s.mode.config_data.discover_try_timeout@.len() > 0 {
        Some(crate::config::spec_timeout_for(
            s.mode.config_data.discover_try_timeout@,
            s.discover_attempts,
        ))
    } else if s.mode.state == State::Requesting && s.mode.config_data.request_try_timeout@.len()
        > 0 {
        Some(crate::config::spec_timeout_for(
            s.mode.config_data.request_try_timeout@,
            s.request_attempts,
        ))
    } else {
        None
    }
}

} // verus!
