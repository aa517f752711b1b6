//! The transmit/receive coordinator: one outstanding send-and-wait at a
//! time, response matching against the request's transaction id and the
//! active listen points, and cancellation that resolves the wait at once.
//! The host performs the actual sends and receives and hands every frame
//! it gathers to `deliver`; mismatches are dropped silently — they are
//! normal noise on a shared broadcast medium.
use vstd::prelude::*;

use crate::Dhcp4Error;
use crate::packet::Packet;

verus! {

/// One endpoint a wait listens on: an address with its subnet filter and a
/// port. An all-zero mask makes the point a wildcard.
#[derive(Debug, Clone, Copy, PartialEq, Eq)]
pub struct ListenPoint {
    pub listen_address: [u8; 4],
    pub subnet_mask: [u8; 4],
    pub listen_port: u16,
}

/// One send-and-wait: the packet out, where it goes, where replies are
/// listened for, how long, and the replies collected so far.
#[derive(Debug, Clone, PartialEq, Eq)]
pub struct TransmitReceiveToken {
    pub remote_address: [u8; 4],
    pub remote_port: u16,
    pub gateway_address: [u8; 4],
    pub listen_points: Vec<ListenPoint>,
    pub timeout_value: u32,
    pub packet: Packet,
    pub response_list: Vec<Packet>,
}

/// How a wait resolves: the replies collected (a DISCOVER may draw several
/// offers), an explicit timeout with none, or cancellation by `stop`.
#[derive(Debug, Clone, PartialEq, Eq)]
pub enum WaitOutcome {
    Responses(Vec<Packet>),
    TimedOut,
    Cancelled,
}

/// Whether a destination lies in a listen point's filter: equal to the
/// point's address under its subnet mask, byte by byte.
pub open spec fn spec_point_matches(lp: ListenPoint, dest: Seq<u8>) -> bool {
    forall|i: int|
        0 <= i < 4 ==> (dest[i] & lp.subnet_mask@[i]) == (lp.listen_address@[i]
            & lp.subnet_mask@[i])
}

/// Whether a reply is accepted for a wait: its transaction id matches the
/// outstanding request's, and its destination lies in some active listen
/// point.
pub open spec fn spec_accepts(xid: u32, lps: Seq<ListenPoint>, resp: Packet, dest: Seq<u8>) -> bool {
    &&& resp.xid == xid
    &&& exists|k: int| 0 <= k < lps.len() && #[trigger] spec_point_matches(lps[k], dest)
}

/// The same token, with one more collected reply.
pub open spec fn token_collected(a: TransmitReceiveToken, b: TransmitReceiveToken, resp: Packet) -> bool {
    &&& a.remote_address@ == b.remote_address@
    &&& a.remote_port == b.remote_port
    &&& a.gateway_address@ == b.gateway_address@
    &&& a.listen_points@ == b.listen_points@
    &&& a.timeout_value == b.timeout_value
    &&& a.packet == b.packet
    &&& a.response_list@ == b.response_list@.push(resp)
}

/// Whether a destination lies in this listen point's filter.
pub fn point_matches(lp: &ListenPoint, dest: &[u8; 4]) -> (r: bool)
    ensures
        r == spec_point_matches(*lp, dest@),
{
    let mut i: usize = 0;
    while i < 4
        invariant
            i <= 4,
            forall|j: int|
                0 <= j < i ==> (dest@[j] & lp.subnet_mask@[j]) == (lp.listen_address@[j]
                    & lp.subnet_mask@[j]),
        decreases 4 - i,
    {
        if (dest[i] & lp.subnet_mask[i]) != (lp.listen_address[i] & lp.subnet_mask[i]) {
            assert((dest@[i as int] & lp.subnet_mask@[i as int]) != (lp.listen_address@[i as int]
                & lp.subnet_mask@[i as int]));
            assert(!spec_point_matches(*lp, dest@));
            return false;
        }
        i = i + 1;
    }
    assert(spec_point_matches(*lp, dest@));
    true
}

/// Whether a reply is accepted for the outstanding wait.
pub fn accepts(xid: u32, lps: &Vec<ListenPoint>, resp: &Packet, dest: &[u8; 4]) -> (r: bool)
    ensures
        r == spec_accepts(xid, lps@, *resp, dest@),
{
    if resp.xid != xid {
        return false;
    }
    let n: usize = lps.len();
    let mut k: usize = 0;
    while k < n
        invariant
            n == lps@.len(),
            k <= n,
            resp.xid == xid,
            forall|j: int| 0 <= j < k ==> !spec_point_matches(lps@[j], dest@),
        decreases n - k,
    {
        if point_matches(&lps[k], dest) {
            assert(spec_point_matches(lps@[k as int], dest@));
            assert(spec_accepts(xid, lps@, *resp, dest@));
            return true;
        }
        k = k + 1;
    }
    false
}

/// The coordinator: at most one wait outstanding.
pub struct Coordinator {
    pub pending: Option<TransmitReceiveToken>,
}

impl Coordinator {
    /// Whether a wait is outstanding.
    pub open spec fn waiting(self) -> bool {
        self.pending is Some
    }

    /// A coordinator with nothing in flight.
    pub fn new() -> (r: Coordinator)
        ensures
            !r.waiting(),
    {
        Coordinator { pending: None }
    }

    /// Takes on a send-and-wait. The host sends the token's packet and
    /// feeds whatever arrives to `deliver` until the deadline. Fails with
    /// `AlreadyStarted`, nothing changed, while a wait is outstanding.
    pub fn transmit_receive(&mut self, token: TransmitReceiveToken) -> (r: Result<(), Dhcp4Error>)
        ensures
            match r {
                Ok(()) => !old(self).waiting() && final(self).pending == Some(token),
                Err(Dhcp4Error::AlreadyStarted) => old(self).waiting() && *final(self) == *old(
                    self,
                ),
                Err(_) => false,
            },
    {
        if self.pending.is_some() {
            return Err(Dhcp4Error::AlreadyStarted);
        }
        self.pending = Some(token);
        Ok(())
    }

    /// Offers a frame the host received at `dest`. It is collected, and
    /// the call answers true, exactly when its transaction id matches the
    /// outstanding request's and `dest` lies in an active listen point;
    /// every other frame is dropped silently. Fails with `InvalidState`
    /// while no wait is outstanding.
    pub fn deliver(&mut self, resp: Packet, dest: [u8; 4]) -> (r: Result<bool, Dhcp4Error>)
        ensures
            match r {
                Ok(true) => match (old(self).pending, final(self).pending) {
                    (Some(t), Some(u)) => spec_accepts(t.packet.xid, t.listen_points@, resp, dest@)
                        && token_collected(u, t, resp),
                    _ => false,
                },
                Ok(false) => old(self).waiting() && (match old(self).pending {
                    Some(t) => !spec_accepts(t.packet.xid, t.listen_points@, resp, dest@),
                    None => false,
                }) && *final(self) == *old(self),
                Err(Dhcp4Error::InvalidState) => !old(self).waiting() && *final(self) == *old(
                    self,
                ),
                Err(_) => false,
            },
    {
        match self.pending.take() {
            None => Err(Dhcp4Error::InvalidState),
            Some(mut t) => {
                if accepts(t.packet.xid, &t.listen_points, &resp, &dest) {
                    t.response_list.push(resp);
                    self.pending = Some(t);
                    Ok(true)
                } else {
                    self.pending = Some(t);
                    Ok(false)
                }
            },
        }
    }

    /// Resolves the wait at its deadline: the replies collected so far, or
    /// an explicit timeout where none came. Either way the wait is over.
    /// Fails with `InvalidState` while no wait is outstanding.
    pub fn complete(&mut self) -> (r: Result<WaitOutcome, Dhcp4Error>)
        ensures
            !(r is Ok) || !final(self).waiting(),
            match r {
                Ok(WaitOutcome::Responses(v)) => match old(self).pending {
                    Some(t) => t.response_list@.len() > 0 && v@ == t.response_list@,
                    None => false,
                },
                Ok(WaitOutcome::TimedOut) => match old(self).pending {
                    Some(t) => t.response_list@.len() == 0,
                    None => false,
                },
                Ok(WaitOutcome::Cancelled) => false,
                Err(Dhcp4Error::InvalidState) => !old(self).waiting() && *final(self) == *old(
                    self,
                ),
                Err(_) => false,
            },
    {
        match self.pending.take() {
            None => Err(Dhcp4Error::InvalidState),
            Some(t) => {
                if t.response_list.len() > 0 {
                    Ok(WaitOutcome::Responses(t.response_list))
                } else {
                    Ok(WaitOutcome::TimedOut)
                }
            },
        }
    }

    /// Cancels the outstanding wait, if any: it resolves `Cancelled` at
    /// once, its listen points are released, and no reply it may have
    /// collected is ever handed on — so no callback is invoked for it.
    pub fn cancel(&mut self) -> (r: Option<WaitOutcome>)
        ensures
            !final(self).waiting(),
            match r {
                Some(w) => old(self).waiting() && w == WaitOutcome::Cancelled,
                None => !old(self).waiting() && *final(self) == *old(self),
            },
    {
        match self.pending.take() {
            Some(_) => Some(WaitOutcome::Cancelled),
            None => None,
        }
    }
}

} // verus!
