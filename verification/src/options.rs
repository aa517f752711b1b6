//! The option-chain codec: (code, length, data) triples laid out one after
//! another, a one-byte padding filler, and a terminator code that ends the
//! chain. Parsing is bounded by the buffer and tolerates a missing
//! terminator; it rejects any option whose declared length overruns the
//! buffer.
use vstd::prelude::*;

use crate::Dhcp4Error;
use crate::OPT_END;
use crate::OPT_PAD;
use crate::wire::copy_range;

verus! {

/// One option of the options area: an op code and its data bytes.
/// On the wire a padding option is a single byte and a data-carrying
/// option is `op_code`, a length byte, and `data`.
#[derive(Debug, Clone, PartialEq, Eq)]
pub struct PacketOption {
    pub op_code: u8,
    pub data: Vec<u8>,
}

/// The mathematical value of an option list.
pub open spec fn opts_view(s: Seq<PacketOption>) -> Seq<(u8, Seq<u8>)> {
    Seq::new(s.len(), |i: int| (s[i].op_code, s[i].data@))
}

/// Whether one option can be laid out on the wire: data no longer than its
/// one-byte length field can say, padding carries no data, and no option
/// may bear the terminator code.
pub open spec fn wf_opt(o: (u8, Seq<u8>)) -> bool {
    &&& o.1.len() <= 255
    &&& o.0 == OPT_PAD ==> o.1.len() == 0
    &&& o.0 != OPT_END
}

/// Whether every option of a list can be laid out on the wire.
pub open spec fn wf_opts(os: Seq<(u8, Seq<u8>)>) -> bool {
    forall|k: int| 0 <= k < os.len() ==> wf_opt(os[k])
}

/// The wire bytes of one option.
pub open spec fn enc_opt(o: (u8, Seq<u8>)) -> Seq<u8> {
    if o.0 == OPT_PAD {
        seq![OPT_PAD]
    } else {
        seq![o.0, o.1.len() as u8] + o.1
    }
}

/// The wire bytes of an option list, terminator not yet added.
pub open spec fn enc_list(os: Seq<(u8, Seq<u8>)>) -> Seq<u8>
    decreases os.len(),
{
    if os.len() == 0 {
        Seq::empty()
    } else {
        enc_opt(os[0]) + enc_list(os.subrange(1, os.len() as int))
    }
}

/// The wire bytes of a whole options area: the options in order, and the
/// terminator after them.
pub open spec fn enc_opts(os: Seq<(u8, Seq<u8>)>) -> Seq<u8> {
    enc_list(os) + seq![OPT_END]
}

/// Parses the options area `b` from position `i` on: `None` on an option
/// whose declared length overruns the buffer, the option list otherwise.
/// Parsing stops at the terminator code or at the end of the buffer,
/// whichever comes first.
pub open spec fn parse_opts_from(b: Seq<u8>, i: int) -> Option<Seq<(u8, Seq<u8>)>>
    recommends
        0 <= i,
    decreases b.len() - i,
{
    if i >= b.len() {
        Some(Seq::empty())
    } else if b[i] == OPT_END {
        Some(Seq::empty())
    } else if b[i] == OPT_PAD {
        match parse_opts_from(b, i + 1) {
            Some(r) => Some(seq![(OPT_PAD, Seq::<u8>::empty())] + r),
            None => None,
        }
    } else if i + 2 <= b.len() && i + 2 + b[i + 1] <= b.len() {
        match parse_opts_from(b, i + 2 + b[i + 1]) {
            Some(r) => Some(seq![(b[i], b.subrange(i + 2, i + 2 + b[i + 1]))] + r),
            None => None,
        }
    } else {
        None
    }
}

/// Whether the options area `b` parses to completion.
pub open spec fn opts_ok(b: Seq<u8>) -> bool {
    parse_opts_from(b, 0) is Some
}

/// The option list an options area parses to, empty where it does not
/// parse.
pub open spec fn parsed(b: Seq<u8>) -> Seq<(u8, Seq<u8>)> {
    match parse_opts_from(b, 0) {
        Some(r) => r,
        None => Seq::empty(),
    }
}

/// Parsing is unmoved by the bytes before the position it starts from.
pub proof fn lemma_parse_offset(a: Seq<u8>, b: Seq<u8>, j: int)
    requires
        0 <= j,
    ensures
        parse_opts_from(a + b, a.len() + j) == parse_opts_from(b, j),
    decreases b.len() - j,
{
    let c = a + b;
    let i = a.len() + j;
    if j >= b.len() {
        assert(i >= c.len());
    } else {
        assert(c[i] == b[j]);
        if b[j] == OPT_END {
        } else if b[j] == OPT_PAD {
            lemma_parse_offset(a, b, j + 1);
        } else if j + 2 <= b.len() && j + 2 + b[j + 1] <= b.len() {
            assert(c[i + 1] == b[j + 1]);
            let l = b[j + 1] as int;
            assert(c.subrange(i + 2, i + 2 + l) =~= b.subrange(j + 2, j + 2 + l));
            lemma_parse_offset(a, b, j + 2 + l);
            assert(parse_opts_from(c, i + 2 + l) == parse_opts_from(b, j + 2 + l));
        } else {
            assert(!(i + 2 <= c.len() && i + 2 + c[i + 1] <= c.len()));
        }
    }
}

/// Parsing the encoding of a well-formed option list gives back the list,
/// in order, padding included.
pub proof fn lemma_opts_roundtrip(os: Seq<(u8, Seq<u8>)>)
    requires
        wf_opts(os),
    ensures
        parse_opts_from(enc_opts(os), 0) == Some(os),
    decreases os.len(),
{
    let b = enc_opts(os);
    if os.len() == 0 {
        assert(enc_list(os) =~= Seq::<u8>::empty());
        assert(b =~= seq![OPT_END]);
        assert(b[0] == OPT_END);
        assert(parse_opts_from(b, 0) == Some(Seq::<(u8, Seq<u8>)>::empty()));
    } else {
        let o = os[0];
        let rest = os.subrange(1, os.len() as int);
        assert(wf_opt(o));
        assert(wf_opts(rest));
        let head = enc_opt(o);
        let tail = enc_opts(rest);
        assert(enc_list(os) == enc_opt(o) + enc_list(rest));
        assert(b =~= head + tail);
        lemma_opts_roundtrip(rest);
        assert(tail.len() >= 1);
        if o.0 == OPT_PAD {
            assert(head =~= seq![OPT_PAD]);
            assert(b[0] == OPT_PAD);
            lemma_parse_offset(head, tail, 0);
            assert(parse_opts_from(b, 1) == parse_opts_from(tail, 0));
            assert(parse_opts_from(b, 1) == Some(rest));
            assert(o.1 =~= Seq::<u8>::empty());
            assert(seq![(OPT_PAD, Seq::<u8>::empty())] + rest =~= os);
        } else {
            let l = o.1.len() as int;
            assert(head =~= seq![o.0, o.1.len() as u8] + o.1);
            assert(head.len() == 2 + l);
            assert(b[0] == o.0);
            assert(b[0] != OPT_END && b[0] != OPT_PAD);
            assert(b[1] == o.1.len() as u8);
            assert(b[1] as int == l);
            assert(0 + 2 <= b.len() && 0 + 2 + b[1] <= b.len());
            assert(b.subrange(2, 2 + l) =~= o.1);
            lemma_parse_offset(head, tail, 0);
            assert(parse_opts_from(b, head.len() as int) == parse_opts_from(tail, 0));
            assert(parse_opts_from(b, 2 + l) == Some(rest));
            assert(seq![(o.0, o.1)] + rest =~= os);
        }
    }
}

/// Appending one option to a list appends its wire bytes to the encoding.
pub proof fn lemma_enc_list_snoc(os: Seq<(u8, Seq<u8>)>, o: (u8, Seq<u8>))
    ensures
        enc_list(os.push(o)) == enc_list(os) + enc_opt(o),
    decreases os.len(),
{
    let p = os.push(o);
    if os.len() == 0 {
        assert(p.len() == 1);
        assert(p[0] == o);
        assert(p.subrange(1, 1) =~= Seq::<(u8, Seq<u8>)>::empty());
        assert(enc_list(p.subrange(1, 1)) =~= Seq::<u8>::empty());
        assert(enc_list(p) =~= enc_opt(o));
        assert(enc_list(os) + enc_opt(o) =~= enc_opt(o));
    } else {
        assert(p[0] == os[0]);
        assert(p.subrange(1, p.len() as int) =~= os.subrange(1, os.len() as int).push(o));
        lemma_enc_list_snoc(os.subrange(1, os.len() as int), o);
        assert(enc_list(p) == enc_opt(os[0]) + (enc_list(os.subrange(1, os.len() as int))
            + enc_opt(o)));
        assert(enc_opt(os[0]) + (enc_list(os.subrange(1, os.len() as int)) + enc_opt(o)) =~= (
        enc_opt(os[0]) + enc_list(os.subrange(1, os.len() as int))) + enc_opt(o));
    }
}

/// Whatever parses off the wire is itself fit for the wire: data no longer
/// than a length byte can say, padding without data, and no option bearing
/// the terminator code.
pub proof fn lemma_parse_wf(b: Seq<u8>, i: int)
    requires
        0 <= i,
    ensures
        match parse_opts_from(b, i) {
            Some(r) => wf_opts(r),
            None => true,
        },
    decreases b.len() - i,
{
    if i >= b.len() {
    } else if b[i] == OPT_END {
    } else if b[i] == OPT_PAD {
        lemma_parse_wf(b, i + 1);
        match parse_opts_from(b, i + 1) {
            Some(r) => {
                let w = seq![(OPT_PAD, Seq::<u8>::empty())] + r;
                assert(wf_opt(w[0]));
                assert(forall|k: int| 1 <= k < w.len() ==> w[k] == r[k - 1]);
            },
            None => {},
        }
    } else if i + 2 <= b.len() && i + 2 + b[i + 1] <= b.len() {
        lemma_parse_wf(b, i + 2 + b[i + 1]);
        match parse_opts_from(b, i + 2 + b[i + 1]) {
            Some(r) => {
                let w = seq![(b[i], b.subrange(i + 2, i + 2 + b[i + 1]))] + r;
                assert(wf_opt(w[0]));
                assert(forall|k: int| 1 <= k < w.len() ==> w[k] == r[k - 1]);
            },
            None => {},
        }
    } else {
    }
}

/// Joins a partial parse: the options already taken, before what remains.
pub open spec fn glue(
    pre: Seq<(u8, Seq<u8>)>,
    rest: Option<Seq<(u8, Seq<u8>)>>,
) -> Option<Seq<(u8, Seq<u8>)>> {
    match rest {
        Some(r) => Some(pre + r),
        None => None,
    }
}

/// Whether this option can be laid out on the wire.
pub fn option_wf(o: &PacketOption) -> (r: bool)
    ensures
        r == wf_opt((o.op_code, o.data@)),
{
    o.data.len() <= 255 && (o.op_code != OPT_PAD || o.data.len() == 0) && o.op_code != OPT_END
}

/// Decodes an options area into its option list. Fails exactly when some
/// option's declared length overruns the buffer; stops at the terminator
/// code; a missing terminator ends the list at the end of the buffer.
pub fn parse_options(area: &Vec<u8>) -> (r: Result<Vec<PacketOption>, Dhcp4Error>)
    ensures
        match r {
            Ok(v) => parse_opts_from(area@, 0) == Some(opts_view(v@)),
            Err(e) => e == Dhcp4Error::MalformedPacket && parse_opts_from(area@, 0) is None,
        },
{
    let len: usize = area.len();
    let mut acc: Vec<PacketOption> = Vec::new();
    let mut i: usize = 0;
    loop
        invariant
            len == area@.len(),
            i <= len,
            parse_opts_from(area@, 0) == glue(opts_view(acc@), parse_opts_from(area@, i as int)),
        decreases len - i,
    {
        if i >= len {
            assert(parse_opts_from(area@, i as int) == Some(Seq::<(u8, Seq<u8>)>::empty()));
            assert(opts_view(acc@) + Seq::<(u8, Seq<u8>)>::empty() =~= opts_view(acc@));
            return Ok(acc);
        }
        let c: u8 = area[i];
        if c == OPT_END {
            assert(parse_opts_from(area@, i as int) == Some(Seq::<(u8, Seq<u8>)>::empty()));
            assert(opts_view(acc@) + Seq::<(u8, Seq<u8>)>::empty() =~= opts_view(acc@));
            return Ok(acc);
        }
        if c == OPT_PAD {
            let ghost pre = opts_view(acc@);
            acc.push(PacketOption { op_code: OPT_PAD, data: Vec::new() });
            proof {
                assert(opts_view(acc@) =~= pre.push((OPT_PAD, Seq::<u8>::empty())));
                let rest = parse_opts_from(area@, i + 1);
                match rest {
                    Some(r) => {
                        assert(pre + (seq![(OPT_PAD, Seq::<u8>::empty())] + r) =~= opts_view(acc@)
                            + r);
                    },
                    None => {},
                }
            }
            i = i + 1;
        } else {
            if i + 1 >= len {
                assert(parse_opts_from(area@, i as int) is None);
                return Err(Dhcp4Error::MalformedPacket);
            }
            let l: usize = area[i + 1] as usize;
            if l > len - (i + 2) {
                assert(i + 2 + area@[i as int + 1] > len);
                assert(parse_opts_from(area@, i as int) is None);
                return Err(Dhcp4Error::MalformedPacket);
            }
            let data: Vec<u8> = copy_range(area, i + 2, l);
            let ghost pre = opts_view(acc@);
            acc.push(PacketOption { op_code: c, data });
            proof {
                assert(opts_view(acc@) =~= pre.push(
                    (c, area@.subrange(i as int + 2, i as int + 2 + l as int)),
                ));
                let rest = parse_opts_from(area@, i as int + 2 + l as int);
                match rest {
                    Some(r) => {
                        assert(pre + (seq![
                            (c, area@.subrange(i as int + 2, i as int + 2 + l as int)),
                        ] + r) =~= opts_view(acc@) + r);
                    },
                    None => {},
                }
            }
            i = i + 2 + l;
        }
    }
}

/// Encodes one well-formed option into its wire bytes.
fn encode_one(o: &PacketOption) -> (r: Vec<u8>)
    requires
        wf_opt((o.op_code, o.data@)),
    ensures
        r@ == enc_opt((o.op_code, o.data@)),
{
    let mut r: Vec<u8> = Vec::new();
    if o.op_code == OPT_PAD {
        r.push(OPT_PAD);
        assert(r@ =~= enc_opt((o.op_code, o.data@)));
    } else {
        r.push(o.op_code);
        r.push(o.data.len() as u8);
        let mut j: usize = 0;
        let n: usize = o.data.len();
        while j < n
            invariant
                n == o.data@.len(),
                j <= n,
                r@.len() == 2 + j,
                r@[0] == o.op_code,
                r@[1] == o.data@.len() as u8,
                forall|k: int| 0 <= k < j ==> r@[2 + k] == o.data@[k],
            decreases n - j,
        {
            r.push(o.data[j]);
            j = j + 1;
        }
        assert(r@ =~= enc_opt((o.op_code, o.data@)));
    }
    r
}

/// Encodes a well-formed option list into a whole options area: the options
/// in order, and the terminator after them.
pub fn encode_options(opts: &Vec<PacketOption>) -> (r: Vec<u8>)
    requires
        wf_opts(opts_view(opts@)),
    ensures
        r@ == enc_opts(opts_view(opts@)),
{
    let n: usize = opts.len();
    let mut r: Vec<u8> = Vec::new();
    let mut j: usize = 0;
    while j < n
        invariant
            n == opts@.len(),
            j <= n,
            wf_opts(opts_view(opts@)),
            r@ == enc_list(opts_view(opts@).subrange(0, j as int)),
        decreases n - j,
    {
        assert(wf_opt(opts_view(opts@)[j as int]));
        let mut piece: Vec<u8> = encode_one(&opts[j]);
        proof {
            let s = opts_view(opts@);
            lemma_enc_list_snoc(s.subrange(0, j as int), s[j as int]);
            assert(s.subrange(0, j as int + 1) =~= s.subrange(0, j as int).push(s[j as int]));
        }
        r.append(&mut piece);
        j = j + 1;
    }
    assert(opts_view(opts@).subrange(0, n as int) =~= opts_view(opts@));
    r.push(OPT_END);
    assert(r@ =~= enc_opts(opts_view(opts@)));
    r
}

/// The data of the first option bearing `code`, if any. Later duplicates do
/// not overwrite earlier ones: callers resolve precedence, and this takes
/// the earliest.
pub open spec fn first_opt_data(os: Seq<(u8, Seq<u8>)>, code: u8) -> Option<Seq<u8>>
    decreases os.len(),
{
    if os.len() == 0 {
        None
    } else if os[0].0 == code {
        Some(os[0].1)
    } else {
        first_opt_data(os.subrange(1, os.len() as int), code)
    }
}

/// The first match is unmoved by dropping a prefix in which nothing matches.
proof fn lemma_first_skip(os: Seq<(u8, Seq<u8>)>, code: u8, k: int)
    requires
        0 <= k <= os.len(),
        forall|j: int| 0 <= j < k ==> os[j].0 != code,
    ensures
        first_opt_data(os, code) == first_opt_data(os.subrange(k, os.len() as int), code),
    decreases k,
{
    if k > 0 {
        assert(os[0].0 != code);
        let t = os.subrange(1, os.len() as int);
        assert(forall|j: int| 0 <= j < k - 1 ==> t[j].0 != code);
        lemma_first_skip(t, code, k - 1);
        assert(t.subrange(k - 1, t.len() as int) =~= os.subrange(k, os.len() as int));
    } else {
        assert(os.subrange(0, os.len() as int) =~= os);
    }
}

/// Finds the first option bearing `code`, giving its index.
pub fn find_option(opts: &Vec<PacketOption>, code: u8) -> (r: Option<usize>)
    ensures
        match r {
            Some(k) => {
                &&& k < opts@.len()
                &&& opts@[k as int].op_code == code
                &&& forall|j: int| 0 <= j < k ==> opts@[j].op_code != code
                &&& first_opt_data(opts_view(opts@), code) == Some(opts@[k as int].data@)
            },
            None => {
                &&& forall|j: int| 0 <= j < opts@.len() ==> opts@[j].op_code != code
                &&& first_opt_data(opts_view(opts@), code) is None
            },
        },
{
    let n: usize = opts.len();
    let mut k: usize = 0;
    while k < n
        invariant
            n == opts@.len(),
            k <= n,
            forall|j: int| 0 <= j < k ==> opts@[j].op_code != code,
        decreases n - k,
    {
        if opts[k].op_code == code {
            proof {
                let s = opts_view(opts@);
                assert(forall|j: int| 0 <= j < k ==> s[j].0 != code);
                lemma_first_skip(s, code, k as int);
                let t = s.subrange(k as int, s.len() as int);
                assert(t[0] == s[k as int]);
            }
            return Some(k);
        }
        k = k + 1;
    }
    proof {
        let s = opts_view(opts@);
        assert(forall|j: int| 0 <= j < n ==> s[j].0 != code);
        lemma_first_skip(s, code, n as int);
        assert(s.subrange(n as int, s.len() as int).len() == 0);
    }
    None
}

} // verus!
