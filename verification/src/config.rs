//! The configuration model: the client parameters handed to the engine at
//! `configure` time, immutable once applied, and their validation.
use vstd::prelude::*;

use crate::Dhcp4Error;
use crate::OPT_END;
use crate::OPT_PAD;
use crate::options::PacketOption;
use crate::options::opts_view;
use crate::options::wf_opt;
use crate::options::wf_opts;
use crate::wire::copy_bytes;

verus! {

/// The client parameters: retry counts with their per-attempt timeout
/// sequences, an optional static client address (all zeroes for none), and
/// the options to carry in every DISCOVER and REQUEST. The host's callback
/// stays outside the engine: its verdicts come back in as plain decisions.
#[derive(Debug, Clone, PartialEq, Eq)]
pub struct ConfigData {
    pub discover_try_count: u32,
    pub discover_try_timeout: Vec<u32>,
    pub request_try_count: u32,
    pub request_try_timeout: Vec<u32>,
    pub client_address: [u8; 4],
    pub option_list: Vec<PacketOption>,
}

/// Whether one requested option may stand in a configuration: it must fit
/// the wire, and the padding and terminator codes are reserved for the
/// codec's internal use.
pub open spec fn valid_requested_opt(o: (u8, Seq<u8>)) -> bool {
    &&& wf_opt(o)
    &&& o.0 != OPT_PAD
    &&& o.0 != OPT_END
}

/// Whether a configuration is acceptable: a non-zero retry count demands at
/// least one timeout entry (the last entry is reused for any further
/// retries), and every requested option may stand.
pub open spec fn valid_config(c: ConfigData) -> bool {
    &&& c.discover_try_count > 0 ==> c.discover_try_timeout@.len() > 0
    &&& c.request_try_count > 0 ==> c.request_try_timeout@.len() > 0
    &&& forall|k: int|
        0 <= k < c.option_list@.len() ==> valid_requested_opt(opts_view(c.option_list@)[k])
}

/// A valid configuration's option list is fit for the wire.
pub proof fn lemma_valid_config_opts_wf(c: ConfigData)
    requires
        valid_config(c),
    ensures
        wf_opts(opts_view(c.option_list@)),
{
}

/// Checks a configuration. Accepts exactly the valid ones and fails with
/// `InvalidConfig`, before any state change, on every other.
pub fn validate(c: &ConfigData) -> (r: Result<(), Dhcp4Error>)
    ensures
        match r {
            Ok(()) => valid_config(*c),
            Err(e) => e == Dhcp4Error::InvalidConfig && !valid_config(*c),
        },
{
    if c.discover_try_count > 0 && c.discover_try_timeout.len() == 0 {
        return Err(Dhcp4Error::InvalidConfig);
    }
    if c.request_try_count > 0 && c.request_try_timeout.len() == 0 {
        return Err(Dhcp4Error::InvalidConfig);
    }
    let n: usize = c.option_list.len();
    let mut k: usize = 0;
    while k < n
        invariant
            n == c.option_list@.len(),
            k <= n,
            forall|j: int| 0 <= j < k ==> valid_requested_opt(opts_view(c.option_list@)[j]),
        decreases n - k,
    {
        let o = &c.option_list[k];
        if !(o.data.len() <= 255 && o.op_code != OPT_PAD && o.op_code != OPT_END) {
            assert(!valid_requested_opt(opts_view(c.option_list@)[k as int]));
            return Err(Dhcp4Error::InvalidConfig);
        }
        k = k + 1;
    }
    Ok(())
}

impl Default for ConfigData {
    /// The all-zero configuration: no retries, no timeouts, no static
    /// address, no requested options.
    fn default() -> (r: Self)
        ensures
            r.discover_try_count == 0,
            r.discover_try_timeout@.len() == 0,
            r.request_try_count == 0,
            r.request_try_timeout@.len() == 0,
            r.client_address@ == Seq::new(4, |i: int| 0u8),
            r.option_list@.len() == 0,
            valid_config(r),
    {
        let r = ConfigData {
            discover_try_count: 0,
            discover_try_timeout: Vec::new(),
            request_try_count: 0,
            request_try_timeout: Vec::new(),
            client_address: [0u8, 0u8, 0u8, 0u8],
            option_list: Vec::new(),
        };
        assert(r.client_address@ =~= Seq::new(4, |i: int| 0u8));
        r
    }
}

/// The timeout owed to the attempt numbered `attempt` (first attempt is 1):
/// the matching entry of the sequence, the last entry reused once the
/// sequence runs out.
pub open spec fn spec_timeout_for(ts: Seq<u32>, attempt: u32) -> u32
    recommends
        ts.len() > 0,
        attempt >= 1,
{
    if attempt - 1 < ts.len() {
        ts[attempt - 1]
    } else {
        ts[ts.len() - 1]
    }
}

/// The per-attempt timeout, the last entry reused for any further retries.
pub fn timeout_for(ts: &Vec<u32>, attempt: u32) -> (r: u32)
    requires
        ts@.len() > 0,
        attempt >= 1,
    ensures
        r == spec_timeout_for(ts@, attempt),
{
    let n: usize = ts.len();
    let a: usize = attempt as usize;
    if a - 1 < n {
        ts[a - 1]
    } else {
        ts[n - 1]
    }
}

/// Value equality of two configurations, field for field.
pub open spec fn config_eq(a: ConfigData, b: ConfigData) -> bool {
    &&& a.discover_try_count == b.discover_try_count
    &&& a.discover_try_timeout@ == b.discover_try_timeout@
    &&& a.request_try_count == b.request_try_count
    &&& a.request_try_timeout@ == b.request_try_timeout@
    &&& a.client_address@ == b.client_address@
    &&& opts_view(a.option_list@) == opts_view(b.option_list@)
}

/// Copies a timeout sequence.
fn copy_u32s(v: &Vec<u32>) -> (r: Vec<u32>)
    ensures
        r@ == v@,
{
    let n: usize = v.len();
    let mut r: Vec<u32> = Vec::new();
    let mut j: usize = 0;
    while j < n
        invariant
            n == v@.len(),
            j <= n,
            r@.len() == j,
            forall|i: int| 0 <= i < j ==> r@[i] == v@[i],
        decreases n - j,
    {
        r.push(v[j]);
        j = j + 1;
    }
    assert(r@ =~= v@);
    r
}

/// Copies an option list.
pub fn copy_options(v: &Vec<PacketOption>) -> (r: Vec<PacketOption>)
    ensures
        opts_view(r@) == opts_view(v@),
        r@.len() == v@.len(),
{
    let n: usize = v.len();
    let mut r: Vec<PacketOption> = Vec::new();
    let mut j: usize = 0;
    while j < n
        invariant
            n == v@.len(),
            j <= n,
            r@.len() == j,
            forall|i: int|
                0 <= i < j ==> r@[i].op_code == v@[i].op_code && r@[i].data@ == v@[i].data@,
        decreases n - j,
    {
        r.push(PacketOption { op_code: v[j].op_code, data: copy_bytes(&v[j].data) });
        j = j + 1;
    }
    assert(opts_view(r@) =~= opts_view(v@));
    r
}

/// Copies a configuration.
pub fn copy_config(c: &ConfigData) -> (r: ConfigData)
    ensures
        config_eq(r, *c),
        valid_config(*c) ==> valid_config(r),
{
    let r = ConfigData {
        discover_try_count: c.discover_try_count,
        discover_try_timeout: copy_u32s(&c.discover_try_timeout),
        request_try_count: c.request_try_count,
        request_try_timeout: copy_u32s(&c.request_try_timeout),
        client_address: c.client_address,
        option_list: copy_options(&c.option_list),
    };
    r
}

} // verus!
