use dhcp4::config::ConfigData;
use dhcp4::coordinator::{Coordinator, ListenPoint, TransmitReceiveToken, WaitOutcome};
use dhcp4::engine::{
    CallbackDecision, Dhcp4, ModeData, ReceiveOutcome, State, TimeoutOutcome,
};
use dhcp4::options::PacketOption;
use dhcp4::packet::{build, Packet};
use dhcp4::Dhcp4Error;

fn opt(code: u8, data: Vec<u8>) -> PacketOption {
    PacketOption { op_code: code, data }
}

fn cfg(discover_tries: u32, request_tries: u32) -> ConfigData {
    ConfigData {
        discover_try_count: discover_tries,
        discover_try_timeout: if discover_tries > 0 { vec![4] } else { Vec::new() },
        request_try_count: request_tries,
        request_try_timeout: if request_tries > 0 { vec![2] } else { Vec::new() },
        client_address: [0, 0, 0, 0],
        option_list: Vec::new(),
    }
}

fn reply(xid: u32, msg_type: u8, extra: Vec<PacketOption>) -> Packet {
    let mut appends = vec![opt(53, vec![msg_type])];
    appends.extend(extra);
    let mut p = build(None, &Vec::new(), &appends).unwrap();
    p.op_code = 2;
    p.xid = xid;
    p
}

#[test]
fn default_mode_data_is_stopped_and_zero() {
    let m = ModeData::default();
    assert_eq!(m.state, State::Stopped);
    assert_eq!(m.client_address, [0, 0, 0, 0]);
    assert_eq!(m.client_mac_address, vec![0u8; 32]);
    assert_eq!(m.lease_time, 0);
    assert!(m.reply_packet.is_none());
}

#[test]
fn default_config_is_empty() {
    let c = ConfigData::default();
    assert_eq!(c.discover_try_count, 0);
    assert_eq!(c.request_try_count, 0);
    assert_eq!(c.client_address, [0, 0, 0, 0]);
    assert!(c.option_list.is_empty());
}

#[test]
fn configure_rejects_counts_without_timeouts() {
    let mut e = Dhcp4::new();
    let mut c = cfg(3, 1);
    c.discover_try_timeout = Vec::new();
    assert_eq!(e.configure(c), Err(Dhcp4Error::InvalidConfig));
    assert_eq!(e.get_mode_data().state, State::Stopped);
}

#[test]
fn configure_rejects_reserved_option_codes() {
    let mut e = Dhcp4::new();
    let mut c = cfg(1, 1);
    c.option_list = vec![opt(0xFF, vec![])];
    assert_eq!(e.configure(c), Err(Dhcp4Error::InvalidConfig));
    let mut c = cfg(1, 1);
    c.option_list = vec![opt(0x00, vec![])];
    assert_eq!(e.configure(c), Err(Dhcp4Error::InvalidConfig));
    // The client-identifier and parameter-request options are caller business.
    let mut c = cfg(1, 1);
    c.option_list = vec![opt(61, vec![1, 2]), opt(55, vec![1, 3, 6])];
    assert_eq!(e.configure(c), Ok(()));
}

#[test]
fn configure_outside_stopped_is_already_started() {
    let mut e = Dhcp4::new();
    assert_eq!(e.configure(cfg(1, 1)), Ok(()));
    assert_eq!(e.get_mode_data().state, State::Init);
    assert_eq!(e.configure(cfg(1, 1)), Err(Dhcp4Error::AlreadyStarted));
}

#[test]
fn start_needs_init_and_rejects_reentry() {
    let mut e = Dhcp4::new();
    assert_eq!(e.start(7), Err(Dhcp4Error::InvalidState));
    e.configure(cfg(2, 1)).unwrap();
    let d = e.start(7).unwrap();
    assert_eq!(d.xid, 7);
    assert_eq!(d.op_code, 1);
    // The DISCOVER carries its message type first: 53, len 1, value 1.
    assert_eq!(d.options[0..3], [53, 1, 1]);
    assert_eq!(e.get_mode_data().state, State::Selecting);
    assert_eq!(e.start(8), Err(Dhcp4Error::AlreadyStarted));
}

#[test]
fn scenario_discover_budget_exhausts_to_lease_timeout() {
    // Three tries, never an OFFER: the third timeout fails the start.
    let mut e = Dhcp4::new();
    let mut c = cfg(3, 1);
    c.discover_try_timeout = vec![4, 8];
    e.configure(c).unwrap();
    e.start(0x11).unwrap();
    assert_eq!(e.current_timeout(), Some(4));
    assert!(matches!(e.wait_timed_out(), Ok(TimeoutOutcome::Retry(_))));
    assert_eq!(e.current_timeout(), Some(8));
    assert!(matches!(e.wait_timed_out(), Ok(TimeoutOutcome::Retry(_))));
    // The timeout sequence has run out: its last entry is reused.
    assert_eq!(e.current_timeout(), Some(8));
    assert_eq!(e.wait_timed_out(), Err(Dhcp4Error::LeaseTimeout));
    assert_eq!(e.get_mode_data().state, State::Init);
    assert_eq!(e.current_timeout(), None);
}

#[test]
fn scenario_offer_then_ack_binds_the_lease() {
    let mut e = Dhcp4::new();
    e.configure(cfg(3, 2)).unwrap();
    e.start(0x22).unwrap();
    let mut offer = reply(0x22, 2, vec![]);
    offer.your_addr = [10, 0, 0, 5];
    offer.server_addr = [10, 0, 0, 1];
    let out = e.receive(offer, CallbackDecision::Accept).unwrap();
    let req = match out {
        ReceiveOutcome::SendRequest(req) => req,
        other => panic!("expected a REQUEST, got {:?}", other),
    };
    assert_eq!(e.get_mode_data().state, State::Requesting);
    // The REQUEST asks for the offered address: 50, len 4, 10.0.0.5.
    assert_eq!(req.options[0..3], [53, 1, 3]);
    assert_eq!(req.options[3..9], [50, 4, 10, 0, 0, 5]);
    let mut ack = reply(0x22, 5, vec![opt(51, vec![0, 0, 0x0E, 0x10])]);
    ack.your_addr = [10, 0, 0, 5];
    ack.server_addr = [10, 0, 0, 1];
    let out = e.receive(ack, CallbackDecision::Accept).unwrap();
    assert_eq!(out, ReceiveOutcome::BoundNow);
    let m = e.get_mode_data();
    assert_eq!(m.state, State::Bound);
    assert_eq!(m.client_address, [10, 0, 0, 5]);
    assert_eq!(m.server_address, [10, 0, 0, 1]);
    assert_eq!(m.lease_time, 3600);
    assert!(m.reply_packet.is_some());
    assert_eq!(e.bound_ip(), [10, 0, 0, 5]);
}

#[test]
fn scenario_half_lease_moves_to_renewing() {
    let mut e = bound_engine(0x33);
    assert_eq!(e.renewal_deadline(), 1800);
    assert_eq!(e.rebind_deadline(), 3150);
    let renew = e.renewal_due().unwrap();
    assert_eq!(e.get_mode_data().state, State::Renewing);
    // Unicast: the renewal names the leasing server in its header.
    assert_eq!(renew.server_addr, [10, 0, 0, 1]);
    assert_eq!(renew.client_addr, [10, 0, 0, 5]);
    assert_eq!(renew.options[0..3], [53, 1, 3]);
}

#[test]
fn scenario_stop_cancels_outstanding_wait() {
    let mut e = Dhcp4::new();
    e.configure(cfg(3, 1)).unwrap();
    let discover = e.start(0x44).unwrap();
    let mut c = Coordinator::new();
    let token = TransmitReceiveToken {
        remote_address: [255, 255, 255, 255],
        remote_port: 67,
        gateway_address: [0, 0, 0, 0],
        listen_points: vec![ListenPoint {
            listen_address: [0, 0, 0, 0],
            subnet_mask: [0, 0, 0, 0],
            listen_port: 68,
        }],
        timeout_value: 4,
        packet: discover,
        response_list: Vec::new(),
    };
    c.transmit_receive(token).unwrap();
    e.stop().unwrap();
    assert_eq!(c.cancel(), Some(WaitOutcome::Cancelled));
    assert_eq!(e.get_mode_data().state, State::Stopped);
    // A cancelled wait hands nothing on, so no callback verdict is asked for.
    assert_eq!(c.cancel(), None);
}

#[test]
fn reject_and_noise_are_dropped() {
    let mut e = Dhcp4::new();
    e.configure(cfg(2, 1)).unwrap();
    e.start(0x55).unwrap();
    // Wrong transaction id.
    let stray = reply(0x99, 2, vec![]);
    assert_eq!(e.receive(stray, CallbackDecision::Accept), Ok(ReceiveOutcome::Dropped));
    // Rejected by the callback.
    let offer = reply(0x55, 2, vec![]);
    assert_eq!(e.receive(offer, CallbackDecision::Reject), Ok(ReceiveOutcome::Dropped));
    // An ACK is not what SELECTING waits for.
    let ack = reply(0x55, 5, vec![]);
    assert_eq!(e.receive(ack, CallbackDecision::Accept), Ok(ReceiveOutcome::Dropped));
    assert_eq!(e.get_mode_data().state, State::Selecting);
}

#[test]
fn replacement_offer_is_what_gets_accepted() {
    let mut e = Dhcp4::new();
    e.configure(cfg(2, 1)).unwrap();
    e.start(0x66).unwrap();
    let offer = reply(0x66, 2, vec![]);
    let mut substitute = reply(0x66, 2, vec![]);
    substitute.your_addr = [172, 16, 0, 9];
    let out = e
        .receive(offer, CallbackDecision::Replace(substitute))
        .unwrap();
    let req = match out {
        ReceiveOutcome::SendRequest(req) => req,
        other => panic!("expected a REQUEST, got {:?}", other),
    };
    assert_eq!(req.options[3..9], [50, 4, 172, 16, 0, 9]);
    let held = e.selected_offer.as_ref().unwrap();
    assert_eq!(held.your_addr, [172, 16, 0, 9]);
}

#[test]
fn nak_falls_back_to_discover_until_budget_is_spent() {
    let mut e = Dhcp4::new();
    e.configure(cfg(2, 2)).unwrap();
    e.start(0x77).unwrap();
    let offer = reply(0x77, 2, vec![]);
    e.receive(offer, CallbackDecision::Accept).unwrap();
    let nak = reply(0x77, 6, vec![]);
    let out = e.receive(nak, CallbackDecision::Accept).unwrap();
    assert!(matches!(out, ReceiveOutcome::RetryDiscover(_)));
    assert_eq!(e.get_mode_data().state, State::Selecting);
    // Accept again, exhaust the discover budget with a second NAK.
    let offer = reply(0x77, 2, vec![]);
    e.receive(offer, CallbackDecision::Accept).unwrap();
    let nak = reply(0x77, 6, vec![]);
    assert_eq!(e.receive(nak, CallbackDecision::Accept), Err(Dhcp4Error::LeaseTimeout));
    assert_eq!(e.get_mode_data().state, State::Init);
}

#[test]
fn request_timeouts_retry_then_exhaust() {
    let mut e = Dhcp4::new();
    e.configure(cfg(3, 2)).unwrap();
    e.start(0x88).unwrap();
    assert_eq!(e.current_timeout(), Some(4));
    let offer = reply(0x88, 2, vec![]);
    e.receive(offer, CallbackDecision::Accept).unwrap();
    assert_eq!(e.current_timeout(), Some(2));
    assert!(matches!(e.wait_timed_out(), Ok(TimeoutOutcome::Retry(_))));
    assert_eq!(e.wait_timed_out(), Err(Dhcp4Error::LeaseTimeout));
    assert_eq!(e.get_mode_data().state, State::Init);
}

fn bound_engine(xid: u32) -> Dhcp4 {
    let mut e = Dhcp4::new();
    e.configure(cfg(3, 2)).unwrap();
    e.start(xid).unwrap();
    let mut offer = reply(xid, 2, vec![]);
    offer.your_addr = [10, 0, 0, 5];
    offer.server_addr = [10, 0, 0, 1];
    e.receive(offer, CallbackDecision::Accept).unwrap();
    let mut ack = reply(xid, 5, vec![opt(51, vec![0, 0, 0x0E, 0x10]), opt(54, vec![10, 0, 0, 1])]);
    ack.your_addr = [10, 0, 0, 5];
    e.receive(ack, CallbackDecision::Accept).unwrap();
    e
}

#[test]
fn rebind_broadcasts_after_renewing() {
    let mut e = bound_engine(0x99);
    e.renewal_due().unwrap();
    let rebind = e.rebind_due().unwrap();
    assert_eq!(e.get_mode_data().state, State::Rebinding);
    // Broadcast: no server in the header.
    assert_eq!(rebind.server_addr, [0, 0, 0, 0]);
    let ack = {
        let mut a = reply(0x99, 5, vec![opt(51, vec![0, 0, 0x0E, 0x10])]);
        a.your_addr = [10, 0, 0, 5];
        a
    };
    assert_eq!(e.receive(ack, CallbackDecision::Accept), Ok(ReceiveOutcome::BoundNow));
    assert_eq!(e.get_mode_data().state, State::Bound);
}

#[test]
fn lease_expiry_loses_the_address() {
    let mut e = bound_engine(0xAA);
    e.renewal_due().unwrap();
    e.rebind_due().unwrap();
    e.lease_expired().unwrap();
    let m = e.get_mode_data();
    assert_eq!(m.state, State::Init);
    assert_eq!(m.client_address, [0, 0, 0, 0]);
    assert_eq!(m.lease_time, 0);
}

#[test]
fn renew_rebind_needs_a_lease() {
    let mut e = Dhcp4::new();
    assert_eq!(e.renew_rebind(false), Err(Dhcp4Error::InvalidState));
    let mut e = bound_engine(0xBB);
    let forced = e.renew_rebind(true).unwrap();
    assert_eq!(e.get_mode_data().state, State::Rebinding);
    assert_eq!(forced.server_addr, [0, 0, 0, 0]);
    assert_eq!(forced.client_addr, [10, 0, 0, 5]);
}

#[test]
fn release_relinquishes_and_is_a_noop_elsewhere() {
    let mut e = bound_engine(0xCC);
    let note = e.release().unwrap().expect("a bound lease yields a notification");
    assert_eq!(note.options, vec![53, 1, 7, 0xFF]);
    assert_eq!(note.client_addr, [10, 0, 0, 5]);
    let m = e.get_mode_data();
    assert_eq!(m.state, State::Init);
    assert_eq!(m.client_address, [0, 0, 0, 0]);
    // Out of a lease, release changes nothing and still succeeds.
    assert_eq!(e.release(), Ok(None));
}

#[test]
fn coordinator_matches_xid_and_listen_points() {
    let mut c = Coordinator::new();
    let request = {
        let mut p = build(None, &Vec::new(), &Vec::new()).unwrap();
        p.xid = 0xDD;
        p
    };
    let token = TransmitReceiveToken {
        remote_address: [255, 255, 255, 255],
        remote_port: 67,
        gateway_address: [0, 0, 0, 0],
        listen_points: vec![ListenPoint {
            listen_address: [10, 0, 0, 5],
            subnet_mask: [255, 255, 255, 0],
            listen_port: 68,
        }],
        timeout_value: 4,
        packet: request,
        response_list: Vec::new(),
    };
    assert!(matches!(c.deliver(reply(0xDD, 5, vec![]), [10, 0, 0, 5]), Err(Dhcp4Error::InvalidState)));
    c.transmit_receive(token).unwrap();
    // Same subnet, right id: collected.
    assert_eq!(c.deliver(reply(0xDD, 5, vec![]), [10, 0, 0, 99]), Ok(true));
    // Wrong transaction id: dropped silently.
    assert_eq!(c.deliver(reply(0xEE, 5, vec![]), [10, 0, 0, 5]), Ok(false));
    // Wrong subnet: dropped silently.
    assert_eq!(c.deliver(reply(0xDD, 5, vec![]), [10, 0, 1, 5]), Ok(false));
    match c.complete().unwrap() {
        WaitOutcome::Responses(v) => {
            assert_eq!(v.len(), 1);
            assert_eq!(v[0].xid, 0xDD);
        }
        other => panic!("expected collected responses, got {:?}", other),
    }
}

#[test]
fn coordinator_times_out_empty_and_rejects_overlap() {
    let mut c = Coordinator::new();
    let token = TransmitReceiveToken {
        remote_address: [255, 255, 255, 255],
        remote_port: 67,
        gateway_address: [0, 0, 0, 0],
        listen_points: Vec::new(),
        timeout_value: 1,
        packet: build(None, &Vec::new(), &Vec::new()).unwrap(),
        response_list: Vec::new(),
    };
    c.transmit_receive(token.clone()).unwrap();
    assert_eq!(c.transmit_receive(token), Err(Dhcp4Error::AlreadyStarted));
    assert_eq!(c.complete(), Ok(WaitOutcome::TimedOut));
    assert!(matches!(c.complete(), Err(Dhcp4Error::InvalidState)));
}

#[test]
fn snapshot_is_a_copy() {
    let e = bound_engine(0xEE);
    let m = e.get_mode_data();
    let n = e.get_mode_data();
    assert_eq!(m, n);
    assert_eq!(m.state, State::Bound);
}
