//! The packet codec: the fixed-offset, byte-exact wire layout of a DHCPv4
//! packet, its decoding from a raw buffer, and `build`, which derives a new
//! packet from an optional seed by deleting and appending options.
use vstd::prelude::*;

use crate::Dhcp4Error;
use crate::DHCP_MAGIC;
use crate::FIXED_HEADER_LEN;
use crate::MAX_PACKET_LEN;
use crate::options::PacketOption;
use crate::options::enc_opts;
use crate::options::opts_ok;
use crate::options::opts_view;
use crate::options::option_wf;
use crate::options::encode_options;
use crate::options::parse_opts_from;
use crate::options::parse_options;
use crate::options::wf_opt;
use crate::options::wf_opts;
use crate::wire::be16_of;
use crate::wire::be32_of;
use crate::wire::copy_bytes;
use crate::wire::copy_range;
use crate::wire::join_be16;
use crate::wire::join_be32;
use crate::wire::lemma_be16_roundtrip;
use crate::wire::lemma_be32_roundtrip;
use crate::wire::zero_bytes;

verus! {

/// A DHCPv4 packet: the fixed-offset header fields and the raw bytes of the
/// trailing options area. Well-formed packets carry the DHCP magic cookie
/// and fixed-width name and address fields.
#[derive(Debug, Clone, PartialEq, Eq)]
pub struct Packet {
    pub op_code: u8,
    pub hw_type: u8,
    pub hw_addr_len: u8,
    pub hops: u8,
    pub xid: u32,
    pub seconds: u16,
    pub reserved: u16,
    pub client_addr: [u8; 4],
    pub your_addr: [u8; 4],
    pub server_addr: [u8; 4],
    pub gateway_addr: [u8; 4],
    pub client_hw_addr: Vec<u8>,
    pub server_name: Vec<u8>,
    pub boot_file_name: Vec<u8>,
    pub magik: u32,
    pub options: Vec<u8>,
}

/// Whether a packet's fields fit the wire layout: a 16-byte hardware
/// address, a 64-byte server name, a 128-byte boot file name, and the DHCP
/// magic cookie in place.
pub open spec fn wf_packet(p: Packet) -> bool {
    &&& p.client_hw_addr@.len() == 16
    &&& p.server_name@.len() == 64
    &&& p.boot_file_name@.len() == 128
    &&& p.magik == DHCP_MAGIC
}

/// The length of a packet's wire encoding.
pub open spec fn spec_encode_len(p: Packet) -> int {
    FIXED_HEADER_LEN + p.options@.len()
}

/// The byte at offset `i` of a packet's wire encoding.
pub open spec fn enc_byte(p: Packet, i: int) -> u8 {
    if i == 0 {
        p.op_code
    } else if i == 1 {
        p.hw_type
    } else if i == 2 {
        p.hw_addr_len
    } else if i == 3 {
        p.hops
    } else if i == 4 {
        (p.xid >> 24) as u8
    } else if i == 5 {
        (p.xid >> 16) as u8
    } else if i == 6 {
        (p.xid >> 8) as u8
    } else if i == 7 {
        p.xid as u8
    } else if i == 8 {
        (p.seconds >> 8) as u8
    } else if i == 9 {
        p.seconds as u8
    } else if i == 10 {
        (p.reserved >> 8) as u8
    } else if i == 11 {
        p.reserved as u8
    } else if i < 16 {
        p.client_addr@[i - 12]
    } else if i < 20 {
        p.your_addr@[i - 16]
    } else if i < 24 {
        p.server_addr@[i - 20]
    } else if i < 28 {
        p.gateway_addr@[i - 24]
    } else if i < 44 {
        p.client_hw_addr@[i - 28]
    } else if i < 108 {
        p.server_name@[i - 44]
    } else if i < 236 {
        p.boot_file_name@[i - 108]
    } else if i == 236 {
        (p.magik >> 24) as u8
    } else if i == 237 {
        (p.magik >> 16) as u8
    } else if i == 238 {
        (p.magik >> 8) as u8
    } else if i == 239 {
        p.magik as u8
    } else {
        p.options@[i - 240]
    }
}

/// A packet's wire encoding.
pub open spec fn spec_encode(p: Packet) -> Seq<u8> {
    Seq::new(spec_encode_len(p) as nat, |i: int| enc_byte(p, i))
}

/// The first `n` bytes of `r` are the first `n` bytes of `p`'s encoding.
pub open spec fn filled(r: Seq<u8>, p: Packet, n: int) -> bool {
    &&& r.len() == n
    &&& forall|i: int| 0 <= i < n ==> r[i] == enc_byte(p, i)
}

/// Whether a raw buffer decodes at all: long enough for the fixed header,
/// the magic cookie in place, and an options area that parses.
pub open spec fn spec_decode_ok(b: Seq<u8>) -> bool {
    &&& b.len() >= FIXED_HEADER_LEN
    &&& be32_of(b[236], b[237], b[238], b[239]) == DHCP_MAGIC
    &&& opts_ok(b.subrange(240, b.len() as int))
}

/// Whether `p` is the packet read from the raw buffer `b`.
pub open spec fn decodes_to(b: Seq<u8>, p: Packet) -> bool {
    &&& spec_decode_ok(b)
    &&& p.op_code == b[0]
    &&& p.hw_type == b[1]
    &&& p.hw_addr_len == b[2]
    &&& p.hops == b[3]
    &&& p.xid == be32_of(b[4], b[5], b[6], b[7])
    &&& p.seconds == be16_of(b[8], b[9])
    &&& p.reserved == be16_of(b[10], b[11])
    &&& p.client_addr@ == b.subrange(12, 16)
    &&& p.your_addr@ == b.subrange(16, 20)
    &&& p.server_addr@ == b.subrange(20, 24)
    &&& p.gateway_addr@ == b.subrange(24, 28)
    &&& p.client_hw_addr@ == b.subrange(28, 44)
    &&& p.server_name@ == b.subrange(44, 108)
    &&& p.boot_file_name@ == b.subrange(108, 236)
    &&& p.magik == be32_of(b[236], b[237], b[238], b[239])
    &&& p.options@ == b.subrange(240, b.len() as int)
}

/// Field-for-field equality of two packets, options area included.
pub open spec fn packet_fields_eq(a: Packet, b: Packet) -> bool {
    &&& a.op_code == b.op_code
    &&& a.hw_type == b.hw_type
    &&& a.hw_addr_len == b.hw_addr_len
    &&& a.hops == b.hops
    &&& a.xid == b.xid
    &&& a.seconds == b.seconds
    &&& a.reserved == b.reserved
    &&& a.client_addr@ == b.client_addr@
    &&& a.your_addr@ == b.your_addr@
    &&& a.server_addr@ == b.server_addr@
    &&& a.gateway_addr@ == b.gateway_addr@
    &&& a.client_hw_addr@ == b.client_hw_addr@
    &&& a.server_name@ == b.server_name@
    &&& a.boot_file_name@ == b.boot_file_name@
    &&& a.magik == b.magik
    &&& a.options@ == b.options@
}

/// Serializes a packet into its wire bytes: the fixed-offset header, the
/// magic cookie, and the options area, byte for byte.
pub fn encode_bytes(p: &Packet) -> (r: Vec<u8>)
    requires
        wf_packet(*p),
    ensures
        r@ == spec_encode(*p),
        r@.len() == FIXED_HEADER_LEN + p.options@.len(),
{
    let mut r: Vec<u8> = Vec::new();
    r.push(p.op_code);
    r.push(p.hw_type);
    r.push(p.hw_addr_len);
    r.push(p.hops);
    assert(filled(r@, *p, 4));
    r.push((p.xid >> 24) as u8);
    r.push((p.xid >> 16) as u8);
    r.push((p.xid >> 8) as u8);
    r.push(p.xid as u8);
    assert(filled(r@, *p, 8));
    r.push((p.seconds >> 8) as u8);
    r.push(p.seconds as u8);
    r.push((p.reserved >> 8) as u8);
    r.push(p.reserved as u8);
    assert(filled(r@, *p, 12));
    let mut j: usize = 0;
    while j < 4
        invariant
            j <= 4,
            filled(r@, *p, 12 + j),
        decreases 4 - j,
    {
        r.push(p.client_addr[j]);
        j = j + 1;
    }
    let mut j: usize = 0;
    while j < 4
        invariant
            j <= 4,
            filled(r@, *p, 16 + j),
        decreases 4 - j,
    {
        r.push(p.your_addr[j]);
        j = j + 1;
    }
    let mut j: usize = 0;
    while j < 4
        invariant
            j <= 4,
            filled(r@, *p, 20 + j),
        decreases 4 - j,
    {
        r.push(p.server_addr[j]);
        j = j + 1;
    }
    let mut j: usize = 0;
    while j < 4
        invariant
            j <= 4,
            filled(r@, *p, 24 + j),
        decreases 4 - j,
    {
        r.push(p.gateway_addr[j]);
        j = j + 1;
    }
    assert(filled(r@, *p, 28));
    let mut j: usize = 0;
    while j < 16
        invariant
            j <= 16,
            p.client_hw_addr@.len() == 16,
            filled(r@, *p, 28 + j),
        decreases 16 - j,
    {
        r.push(p.client_hw_addr[j]);
        j = j + 1;
    }
    let mut j: usize = 0;
    while j < 64
        invariant
            j <= 64,
            p.server_name@.len() == 64,
            filled(r@, *p, 44 + j),
        decreases 64 - j,
    {
        r.push(p.server_name[j]);
        j = j + 1;
    }
    let mut j: usize = 0;
    while j < 128
        invariant
            j <= 128,
            p.boot_file_name@.len() == 128,
            filled(r@, *p, 108 + j),
        decreases 128 - j,
    {
        r.push(p.boot_file_name[j]);
        j = j + 1;
    }
    assert(filled(r@, *p, 236));
    r.push((p.magik >> 24) as u8);
    r.push((p.magik >> 16) as u8);
    r.push((p.magik >> 8) as u8);
    r.push(p.magik as u8);
    assert(filled(r@, *p, 240));
    let n: usize = p.options.len();
    let mut j: usize = 0;
    while j < n
        invariant
            j <= n,
            n == p.options@.len(),
            filled(r@, *p, 240 + j),
        decreases n - j,
    {
        r.push(p.options[j]);
        j = j + 1;
    }
    assert(r@ =~= spec_encode(*p));
    r
}

/// Reads a packet out of a raw buffer, along with its parsed option list,
/// in order, duplicates preserved. Fails with `MalformedPacket`, and only
/// with it, exactly when the buffer is shorter than the fixed header, the
/// magic cookie is absent or wrong, or some option's declared length would
/// overrun the buffer. Never panics on any input.
pub fn decode(buffer: &Vec<u8>) -> (r: Result<(Packet, Vec<PacketOption>), Dhcp4Error>)
    ensures
        match r {
            Ok((p, v)) => {
                &&& decodes_to(buffer@, p)
                &&& wf_packet(p)
                &&& parse_opts_from(p.options@, 0) == Some(opts_view(v@))
            },
            Err(e) => e == Dhcp4Error::MalformedPacket && !spec_decode_ok(buffer@),
        },
{
    let len: usize = buffer.len();
    if len < FIXED_HEADER_LEN {
        return Err(Dhcp4Error::MalformedPacket);
    }
    let magik: u32 = join_be32(buffer[236], buffer[237], buffer[238], buffer[239]);
    if magik != DHCP_MAGIC {
        return Err(Dhcp4Error::MalformedPacket);
    }
    let area: Vec<u8> = copy_range(buffer, 240, len - 240);
    assert(area@ == buffer@.subrange(240, buffer@.len() as int));
    let opts: Vec<PacketOption> = match parse_options(&area) {
        Ok(v) => v,
        Err(_) => {
            return Err(Dhcp4Error::MalformedPacket);
        },
    };
    let client_addr: [u8; 4] = [buffer[12], buffer[13], buffer[14], buffer[15]];
    let your_addr: [u8; 4] = [buffer[16], buffer[17], buffer[18], buffer[19]];
    let server_addr: [u8; 4] = [buffer[20], buffer[21], buffer[22], buffer[23]];
    let gateway_addr: [u8; 4] = [buffer[24], buffer[25], buffer[26], buffer[27]];
    assert(client_addr@ =~= buffer@.subrange(12, 16));
    assert(your_addr@ =~= buffer@.subrange(16, 20));
    assert(server_addr@ =~= buffer@.subrange(20, 24));
    assert(gateway_addr@ =~= buffer@.subrange(24, 28));
    let p = Packet {
        op_code: buffer[0],
        hw_type: buffer[1],
        hw_addr_len: buffer[2],
        hops: buffer[3],
        xid: join_be32(buffer[4], buffer[5], buffer[6], buffer[7]),
        seconds: join_be16(buffer[8], buffer[9]),
        reserved: join_be16(buffer[10], buffer[11]),
        client_addr,
        your_addr,
        server_addr,
        gateway_addr,
        client_hw_addr: copy_range(buffer, 28, 16),
        server_name: copy_range(buffer, 44, 64),
        boot_file_name: copy_range(buffer, 108, 128),
        magik,
        options: area,
    };
    Ok((p, opts))
}

/// Encoding a well-formed packet and reading the buffer back gives the
/// packet again, field for field, option bytes in order.
pub proof fn lemma_encode_decode(p: Packet)
    requires
        wf_packet(p),
        opts_ok(p.options@),
    ensures
        spec_decode_ok(spec_encode(p)),
        forall|q: Packet| decodes_to(spec_encode(p), q) ==> packet_fields_eq(q, p),
{
    let b = spec_encode(p);
    assert(b.len() == 240 + p.options@.len());
    lemma_be32_roundtrip(p.xid);
    lemma_be32_roundtrip(p.magik);
    lemma_be16_roundtrip(p.seconds);
    lemma_be16_roundtrip(p.reserved);
    assert(b[236] == (p.magik >> 24) as u8);
    assert(b[237] == (p.magik >> 16) as u8);
    assert(b[238] == (p.magik >> 8) as u8);
    assert(b[239] == p.magik as u8);
    assert(be32_of(b[236], b[237], b[238], b[239]) == p.magik);
    assert(b.subrange(240, b.len() as int) =~= p.options@);
    assert(b.subrange(12, 16) =~= p.client_addr@);
    assert(b.subrange(16, 20) =~= p.your_addr@);
    assert(b.subrange(20, 24) =~= p.server_addr@);
    assert(b.subrange(24, 28) =~= p.gateway_addr@);
    assert(b.subrange(28, 44) =~= p.client_hw_addr@);
    assert(b.subrange(44, 108) =~= p.server_name@);
    assert(b.subrange(108, 236) =~= p.boot_file_name@);
    assert(be32_of(b[4], b[5], b[6], b[7]) == p.xid);
    assert(be16_of(b[8], b[9]) == p.seconds);
    assert(be16_of(b[10], b[11]) == p.reserved);
}

/// Equal fields give equal wire bytes.
pub proof fn lemma_encode_congruence(a: Packet, b: Packet)
    requires
        packet_fields_eq(a, b),
    ensures
        spec_encode(a) == spec_encode(b),
{
    assert forall|i: int| 0 <= i < spec_encode_len(a) implies enc_byte(a, i) == enc_byte(b, i) by {
    }
    assert(spec_encode(a) =~= spec_encode(b));
}

/// The option list kept after deleting every code in `del`.
pub open spec fn spec_delete(os: Seq<(u8, Seq<u8>)>, del: Seq<u8>) -> Seq<(u8, Seq<u8>)> {
    os.filter(|o: (u8, Seq<u8>)| !del.contains(o.0))
}

/// The seed packet by value, where one was given.
pub open spec fn seed_val(seed: Option<&Packet>) -> Option<Packet> {
    match seed {
        Some(p) => Some(*p),
        None => None,
    }
}

/// The option list already present in the seed: its parsed options area,
/// or nothing without a seed.
pub open spec fn build_existing(seed: Option<Packet>) -> Seq<(u8, Seq<u8>)> {
    match seed {
        Some(p) => match parse_opts_from(p.options@, 0) {
            Some(r) => r,
            None => Seq::empty(),
        },
        None => Seq::empty(),
    }
}

/// Whether `build`'s inputs are acceptable: a well-formed seed whose
/// options parse, and appends each fit for the wire.
pub open spec fn build_inputs_ok(
    seed: Option<Packet>,
    app: Seq<(u8, Seq<u8>)>,
) -> bool {
    &&& match seed {
        Some(p) => wf_packet(p) && opts_ok(p.options@),
        None => true,
    }
    &&& wf_opts(app)
}

/// The options area a `build` produces: the seed's options with the deleted
/// codes removed, the appends after them in order, and the terminator.
pub open spec fn build_area(seed: Option<Packet>, del: Seq<u8>, app: Seq<(u8, Seq<u8>)>) -> Seq<
    u8,
> {
    enc_opts(spec_delete(build_existing(seed), del) + app)
}

/// Whether `q` carries the header a `build` from this seed owes: the seed's
/// header unchanged, or the all-zero template with the magic cookie set.
pub open spec fn build_header_matches(q: Packet, seed: Option<Packet>) -> bool {
    match seed {
        Some(p) => {
            &&& q.op_code == p.op_code
            &&& q.hw_type == p.hw_type
            &&& q.hw_addr_len == p.hw_addr_len
            &&& q.hops == p.hops
            &&& q.xid == p.xid
            &&& q.seconds == p.seconds
            &&& q.reserved == p.reserved
            &&& q.client_addr@ == p.client_addr@
            &&& q.your_addr@ == p.your_addr@
            &&& q.server_addr@ == p.server_addr@
            &&& q.gateway_addr@ == p.gateway_addr@
            &&& q.client_hw_addr@ == p.client_hw_addr@
            &&& q.server_name@ == p.server_name@
            &&& q.boot_file_name@ == p.boot_file_name@
            &&& q.magik == p.magik
        },
        None => {
            &&& q.op_code == 0
            &&& q.hw_type == 0
            &&& q.hw_addr_len == 0
            &&& q.hops == 0
            &&& q.xid == 0
            &&& q.seconds == 0
            &&& q.reserved == 0
            &&& q.client_addr@ == Seq::new(4, |i: int| 0u8)
            &&& q.your_addr@ == Seq::new(4, |i: int| 0u8)
            &&& q.server_addr@ == Seq::new(4, |i: int| 0u8)
            &&& q.gateway_addr@ == Seq::new(4, |i: int| 0u8)
            &&& q.client_hw_addr@ == Seq::new(16, |i: int| 0u8)
            &&& q.server_name@ == Seq::new(64, |i: int| 0u8)
            &&& q.boot_file_name@ == Seq::new(128, |i: int| 0u8)
            &&& q.magik == DHCP_MAGIC
        },
    }
}

/// Whether `q` is the packet a `build` with these inputs owes.
pub open spec fn build_ok_to(
    seed: Option<Packet>,
    del: Seq<u8>,
    app: Seq<(u8, Seq<u8>)>,
    q: Packet,
) -> bool {
    &&& build_inputs_ok(seed, app)
    &&& FIXED_HEADER_LEN + build_area(seed, del, app).len() <= MAX_PACKET_LEN
    &&& build_header_matches(q, seed)
    &&& q.options@ == build_area(seed, del, app)
}

/// Whether every byte of this vector can be a delete/append membership probe.
fn contains_code(del: &Vec<u8>, c: u8) -> (r: bool)
    ensures
        r == del@.contains(c),
{
    let n: usize = del.len();
    let mut k: usize = 0;
    while k < n
        invariant
            n == del@.len(),
            k <= n,
            forall|j: int| 0 <= j < k ==> del@[j] != c,
        decreases n - k,
    {
        if del[k] == c {
            return true;
        }
        k = k + 1;
    }
    false
}

/// Copies one option.
fn copy_option(o: &PacketOption) -> (r: PacketOption)
    ensures
        r.op_code == o.op_code,
        r.data@ == o.data@,
{
    PacketOption { op_code: o.op_code, data: copy_bytes(&o.data) }
}

/// Copies a packet, field for field.
pub fn copy_packet(p: &Packet) -> (r: Packet)
    ensures
        packet_fields_eq(r, *p),
{
    Packet {
        op_code: p.op_code,
        hw_type: p.hw_type,
        hw_addr_len: p.hw_addr_len,
        hops: p.hops,
        xid: p.xid,
        seconds: p.seconds,
        reserved: p.reserved,
        client_addr: p.client_addr,
        your_addr: p.your_addr,
        server_addr: p.server_addr,
        gateway_addr: p.gateway_addr,
        client_hw_addr: copy_bytes(&p.client_hw_addr),
        server_name: copy_bytes(&p.server_name),
        boot_file_name: copy_bytes(&p.boot_file_name),
        magik: p.magik,
        options: copy_bytes(&p.options),
    }
}

/// Builds a packet from an optional seed: the seed's options with every
/// code in `delete_list` removed, `append_list` after them in order, and a
/// re-terminated chain, under the seed's header — or under the all-zero
/// template with the magic cookie set, without a seed. Fails with
/// `MalformedPacket` on a seed that does not decode or an append unfit for
/// the wire, and with `OptionsOverflow`, the seed untouched, exactly when
/// the result would exceed the maximum transmissible size. Deterministic:
/// the result is a function of the inputs alone.
pub fn build(
    seed: Option<&Packet>,
    delete_list: &Vec<u8>,
    append_list: &Vec<PacketOption>,
) -> (r: Result<Packet, Dhcp4Error>)
    ensures
        match r {
            Ok(q) => {
                &&& build_ok_to(seed_val(seed), delete_list@, opts_view(append_list@), q)
                &&& wf_packet(q)
            },
            Err(e) => match e {
                Dhcp4Error::MalformedPacket => !build_inputs_ok(
                    seed_val(seed),
                    opts_view(append_list@),
                ),
                Dhcp4Error::OptionsOverflow => {
                    &&& build_inputs_ok(seed_val(seed), opts_view(append_list@))
                    &&& FIXED_HEADER_LEN + build_area(
                        seed_val(seed),
                        delete_list@,
                        opts_view(append_list@),
                    ).len() > MAX_PACKET_LEN
                },
                _ => false,
            },
        },
{
    let ghost gapp = opts_view(append_list@);
    let mut t: usize = 0;
    let napp: usize = append_list.len();
    while t < napp
        invariant
            napp == append_list@.len(),
            t <= napp,
            forall|j: int| 0 <= j < t ==> wf_opt(opts_view(append_list@)[j]),
        decreases napp - t,
    {
        if !option_wf(&append_list[t]) {
            assert(!wf_opt(opts_view(append_list@)[t as int]));
            return Err(Dhcp4Error::MalformedPacket);
        }
        t = t + 1;
    }
    assert(wf_opts(gapp));
    let existing: Vec<PacketOption> = match seed {
        Some(p) => {
            if !(p.client_hw_addr.len() == 16 && p.server_name.len() == 64
                && p.boot_file_name.len() == 128 && p.magik == DHCP_MAGIC) {
                return Err(Dhcp4Error::MalformedPacket);
            }
            match parse_options(&p.options) {
                Ok(v) => v,
                Err(_) => {
                    return Err(Dhcp4Error::MalformedPacket);
                },
            }
        },
        None => Vec::new(),
    };
    proof {
        match seed_val(seed) {
            Some(p) => {
                crate::options::lemma_parse_wf(p.options@, 0);
            },
            None => {
                assert(opts_view(existing@) =~= Seq::<(u8, Seq<u8>)>::empty());
            },
        }
        assert(opts_view(existing@) == build_existing(seed_val(seed)));
        assert(wf_opts(opts_view(existing@)));
    }
    let mut kept: Vec<PacketOption> = Vec::new();
    let nex: usize = existing.len();
    let mut j: usize = 0;
    while j < nex
        invariant
            nex == existing@.len(),
            j <= nex,
            wf_opts(opts_view(existing@)),
            opts_view(kept@) == spec_delete(
                opts_view(existing@).subrange(0, j as int),
                delete_list@,
            ),
            wf_opts(opts_view(kept@)),
        decreases nex - j,
    {
        let ghost s = opts_view(existing@);
        let ghost prefix = s.subrange(0, j as int);
        let ghost prefix1 = s.subrange(0, j as int + 1);
        proof {
            reveal(Seq::filter);
            assert(prefix1.drop_last() =~= prefix);
            assert(prefix1.last() == s[j as int]);
            assert(wf_opt(s[j as int]));
        }
        let keep: bool = !contains_code(delete_list, existing[j].op_code);
        if keep {
            let ghost pre = opts_view(kept@);
            kept.push(copy_option(&existing[j]));
            proof {
                reveal(Seq::filter);
                assert(s[j as int].0 == existing@[j as int].op_code);
                assert(opts_view(kept@) =~= pre.push(s[j as int]));
                assert(spec_delete(prefix1, delete_list@) =~= spec_delete(
                    prefix,
                    delete_list@,
                ).push(s[j as int]));
            }
        } else {
            proof {
                reveal(Seq::filter);
                assert(s[j as int].0 == existing@[j as int].op_code);
                assert(spec_delete(prefix1, delete_list@) =~= spec_delete(prefix, delete_list@));
            }
        }
        j = j + 1;
    }
    proof {
        assert(opts_view(existing@).subrange(0, nex as int) =~= opts_view(existing@));
    }
    let ghost filtered = spec_delete(opts_view(existing@), delete_list@);
    assert(opts_view(kept@) == filtered);
    let mut k: usize = 0;
    let mut out: Vec<PacketOption> = kept;
    while k < napp
        invariant
            napp == append_list@.len(),
            k <= napp,
            wf_opts(gapp),
            gapp == opts_view(append_list@),
            opts_view(out@) == filtered + gapp.subrange(0, k as int),
            wf_opts(opts_view(out@)),
        decreases napp - k,
    {
        let ghost pre = opts_view(out@);
        out.push(copy_option(&append_list[k]));
        proof {
            assert(opts_view(out@) =~= pre.push(gapp[k as int]));
            assert(filtered + gapp.subrange(0, k as int + 1) =~= (filtered + gapp.subrange(
                0,
                k as int,
            )).push(gapp[k as int]));
        }
        k = k + 1;
    }
    proof {
        assert(gapp.subrange(0, napp as int) =~= gapp);
    }
    assert(opts_view(out@) == filtered + gapp);
    let area: Vec<u8> = encode_options(&out);
    assert(area@ == build_area(seed_val(seed), delete_list@, gapp));
    if area.len() > MAX_PACKET_LEN - FIXED_HEADER_LEN {
        return Err(Dhcp4Error::OptionsOverflow);
    }
    let q: Packet = match seed {
        Some(p) => Packet {
            op_code: p.op_code,
            hw_type: p.hw_type,
            hw_addr_len: p.hw_addr_len,
            hops: p.hops,
            xid: p.xid,
            seconds: p.seconds,
            reserved: p.reserved,
            client_addr: p.client_addr,
            your_addr: p.your_addr,
            server_addr: p.server_addr,
            gateway_addr: p.gateway_addr,
            client_hw_addr: copy_bytes(&p.client_hw_addr),
            server_name: copy_bytes(&p.server_name),
            boot_file_name: copy_bytes(&p.boot_file_name),
            magik: p.magik,
            options: area,
        },
        None => Packet {
            op_code: 0,
            hw_type: 0,
            hw_addr_len: 0,
            hops: 0,
            xid: 0,
            seconds: 0,
            reserved: 0,
            client_addr: [0u8, 0u8, 0u8, 0u8],
            your_addr: [0u8, 0u8, 0u8, 0u8],
            server_addr: [0u8, 0u8, 0u8, 0u8],
            gateway_addr: [0u8, 0u8, 0u8, 0u8],
            client_hw_addr: zero_bytes(16),
            server_name: zero_bytes(64),
            boot_file_name: zero_bytes(128),
            magik: DHCP_MAGIC,
            options: area,
        },
    };
    proof {
        match seed_val(seed) {
            Some(p) => {},
            None => {
                assert(q.client_addr@ =~= Seq::new(4, |i: int| 0u8));
                assert(q.your_addr@ =~= Seq::new(4, |i: int| 0u8));
                assert(q.server_addr@ =~= Seq::new(4, |i: int| 0u8));
                assert(q.gateway_addr@ =~= Seq::new(4, |i: int| 0u8));
                assert(q.client_hw_addr@ =~= Seq::new(16, |i: int| 0u8));
                assert(q.server_name@ =~= Seq::new(64, |i: int| 0u8));
                assert(q.boot_file_name@ =~= Seq::new(128, |i: int| 0u8));
            },
        }
    }
    Ok(q)
}

/// A delete pass keeps only options that were already fit for the wire.
proof fn lemma_delete_preserves_wf(os: Seq<(u8, Seq<u8>)>, del: Seq<u8>)
    requires
        wf_opts(os),
    ensures
        wf_opts(spec_delete(os, del)),
    decreases os.len(),
{
    reveal(Seq::filter);
    if os.len() > 0 {
        let head = os.drop_last();
        assert(forall|k: int| 0 <= k < head.len() ==> head[k] == os[k]);
        assert(wf_opts(head));
        lemma_delete_preserves_wf(head, del);
        let fh = spec_delete(head, del);
        let f = spec_delete(os, del);
        assert(wf_opt(os.last()));
        if !del.contains(os.last().0) {
            assert(f == fh.push(os.last()));
            assert(forall|k: int| 0 <= k < f.len() ==> wf_opt(f[k]));
        } else {
            assert(f == fh);
        }
    }
}

/// The options area a `build` writes parses back to exactly the kept
/// options and the appends, in order, duplicates and padding included:
/// the option chain survives the wire.
pub proof fn lemma_build_parse(
    seed: Option<Packet>,
    del: Seq<u8>,
    app: Seq<(u8, Seq<u8>)>,
    q: Packet,
)
    requires
        build_ok_to(seed, del, app, q),
    ensures
        parse_opts_from(q.options@, 0) == Some(spec_delete(build_existing(seed), del) + app),
{
    match seed {
        Some(p) => {
            crate::options::lemma_parse_wf(p.options@, 0);
        },
        None => {},
    }
    assert(wf_opts(build_existing(seed)));
    lemma_delete_preserves_wf(build_existing(seed), del);
    let kept = spec_delete(build_existing(seed), del);
    let combined = kept + app;
    assert forall|k: int| 0 <= k < combined.len() implies wf_opt(combined[k]) by {
        if k < kept.len() {
            assert(combined[k] == kept[k]);
        } else {
            assert(combined[k] == app[k - kept.len()]);
        }
    }
    crate::options::lemma_opts_roundtrip(combined);
}

/// Two packets a `build` with the same inputs owes are the same packet,
/// with byte-identical wire encodings.
pub proof fn lemma_build_deterministic(
    seed: Option<Packet>,
    del: Seq<u8>,
    app: Seq<(u8, Seq<u8>)>,
    q1: Packet,
    q2: Packet,
)
    requires
        build_ok_to(seed, del, app, q1),
        build_ok_to(seed, del, app, q2),
    ensures
        packet_fields_eq(q1, q2),
        spec_encode(q1) == spec_encode(q2),
{
    lemma_encode_congruence(q1, q2);
}

} // verus!
