use dhcp4::Dhcp4Error;
use dhcp4::options::{parse_options, PacketOption};
use dhcp4::packet::{build, decode, encode_bytes, Packet};

fn opt(code: u8, data: Vec<u8>) -> PacketOption {
    PacketOption { op_code: code, data }
}

fn template() -> Packet {
    build(None, &Vec::new(), &Vec::new()).expect("the empty build always fits")
}

#[test]
fn template_is_zeroed_with_magic() {
    let p = template();
    assert_eq!(p.op_code, 0);
    assert_eq!(p.client_addr, [0, 0, 0, 0]);
    assert_eq!(p.client_hw_addr, vec![0u8; 16]);
    assert_eq!(p.server_name, vec![0u8; 64]);
    assert_eq!(p.boot_file_name, vec![0u8; 128]);
    assert_eq!(p.magik, 0x63825363);
    assert_eq!(p.options, vec![0xFF]);
}

#[test]
fn round_trip_encode_decode() {
    let appends = vec![opt(53, vec![1]), opt(60, vec![0xAA, 0xBB, 0xCC])];
    let mut p = build(None, &Vec::new(), &appends).unwrap();
    p.op_code = 1;
    p.hw_type = 1;
    p.hw_addr_len = 6;
    p.hops = 2;
    p.xid = 0xDEADBEEF;
    p.seconds = 0x1234;
    p.client_addr = [192, 168, 0, 7];
    p.your_addr = [10, 0, 0, 5];
    p.server_addr = [10, 0, 0, 1];
    p.gateway_addr = [10, 0, 0, 254];
    p.client_hw_addr[0] = 0x52;
    p.client_hw_addr[5] = 0x99;
    let bytes = encode_bytes(&p);
    assert_eq!(bytes.len(), 240 + p.options.len());
    let (q, opts) = decode(&bytes).expect("a well-formed packet decodes");
    assert_eq!(q, p);
    assert_eq!(opts.len(), 2);
    assert_eq!(opts[0].op_code, 53);
    assert_eq!(opts[1].op_code, 60);
}

#[test]
fn build_is_idempotent() {
    let seed = {
        let appends = vec![opt(53, vec![1]), opt(55, vec![1, 3, 6])];
        build(None, &Vec::new(), &appends).unwrap()
    };
    let deletes = vec![55u8];
    let appends = vec![opt(61, vec![1, 2, 3, 4, 5, 6])];
    let a = build(Some(&seed), &deletes, &appends).unwrap();
    let b = build(Some(&seed), &deletes, &appends).unwrap();
    assert_eq!(a, b);
    assert_eq!(encode_bytes(&a), encode_bytes(&b));
}

#[test]
fn decode_short_buffer_is_malformed() {
    let r = decode(&vec![0u8; 100]);
    assert_eq!(r, Err(Dhcp4Error::MalformedPacket));
    let r = decode(&Vec::new());
    assert_eq!(r, Err(Dhcp4Error::MalformedPacket));
    let r = decode(&vec![0u8; 239]);
    assert_eq!(r, Err(Dhcp4Error::MalformedPacket));
}

#[test]
fn decode_bad_magic_is_malformed() {
    let p = template();
    let mut bytes = encode_bytes(&p);
    bytes[236] = 0x00;
    assert_eq!(decode(&bytes), Err(Dhcp4Error::MalformedPacket));
}

#[test]
fn decode_overrunning_option_is_malformed() {
    let p = template();
    let mut bytes = encode_bytes(&p);
    // Replace the terminator with an option whose declared length overruns.
    bytes[240] = 53;
    bytes.push(10);
    bytes.push(1);
    assert_eq!(decode(&bytes), Err(Dhcp4Error::MalformedPacket));
}

#[test]
fn parse_keeps_order_and_duplicates() {
    let area = vec![53, 1, 2, 53, 1, 5, 0xFF];
    let opts = parse_options(&area).unwrap();
    assert_eq!(opts.len(), 2);
    assert_eq!(opts[0].op_code, 53);
    assert_eq!(opts[0].data, vec![2]);
    assert_eq!(opts[1].op_code, 53);
    assert_eq!(opts[1].data, vec![5]);
}

#[test]
fn parse_handles_padding_and_stops_at_terminator() {
    let area = vec![0x00, 53, 1, 5, 0xFF, 99, 99, 99];
    let opts = parse_options(&area).unwrap();
    assert_eq!(opts.len(), 2);
    assert_eq!(opts[0].op_code, 0);
    assert_eq!(opts[0].data, Vec::<u8>::new());
    assert_eq!(opts[1].op_code, 53);
    assert_eq!(opts[1].data, vec![5]);
}

#[test]
fn parse_tolerates_missing_terminator() {
    let area = vec![53, 1, 5];
    let opts = parse_options(&area).unwrap();
    assert_eq!(opts.len(), 1);
    assert_eq!(opts[0].op_code, 53);
}

#[test]
fn parse_truncated_option_is_malformed() {
    assert_eq!(parse_options(&vec![53]), Err(Dhcp4Error::MalformedPacket));
    assert_eq!(parse_options(&vec![53, 4, 1, 2]), Err(Dhcp4Error::MalformedPacket));
}

#[test]
fn build_writes_exact_option_bytes() {
    let p = build(None, &Vec::new(), &vec![opt(53, vec![1])]).unwrap();
    assert_eq!(p.options, vec![53, 1, 1, 0xFF]);
}

#[test]
fn build_deletes_and_appends_in_order() {
    let seed = build(
        None,
        &Vec::new(),
        &vec![opt(53, vec![1]), opt(55, vec![1, 3]), opt(60, vec![9])],
    )
    .unwrap();
    let q = build(Some(&seed), &vec![55u8], &vec![opt(61, vec![7]), opt(60, vec![8])]).unwrap();
    // 55 is gone; 53 and the first 60 stay in order; the appends follow in order.
    assert_eq!(q.options, vec![53, 1, 1, 60, 1, 9, 61, 1, 7, 60, 1, 8, 0xFF]);
}

#[test]
fn build_rejects_unencodable_append() {
    // A padding option carrying data has no wire form.
    let r = build(None, &Vec::new(), &vec![opt(0, vec![1])]);
    assert_eq!(r, Err(Dhcp4Error::MalformedPacket));
    // No option may bear the terminator code.
    let r = build(None, &Vec::new(), &vec![opt(0xFF, vec![])]);
    assert_eq!(r, Err(Dhcp4Error::MalformedPacket));
}

#[test]
fn build_keeps_padding_unless_deleted() {
    let mut seed = template();
    seed.options = vec![0x00, 0x00, 53, 1, 5, 0xFF];
    let kept = build(Some(&seed), &Vec::new(), &Vec::new()).unwrap();
    assert_eq!(kept.options, vec![0x00, 0x00, 53, 1, 5, 0xFF]);
    let stripped = build(Some(&seed), &vec![0u8], &Vec::new()).unwrap();
    assert_eq!(stripped.options, vec![53, 1, 5, 0xFF]);
}

#[test]
fn build_rejects_malformed_seed() {
    let mut seed = template();
    seed.options = vec![53, 9, 1];
    let r = build(Some(&seed), &Vec::new(), &Vec::new());
    assert_eq!(r, Err(Dhcp4Error::MalformedPacket));
    let mut seed = template();
    seed.magik = 0;
    let r = build(Some(&seed), &Vec::new(), &Vec::new());
    assert_eq!(r, Err(Dhcp4Error::MalformedPacket));
}

#[test]
fn build_overflow_leaves_seed_unmodified() {
    let seed = build(None, &Vec::new(), &vec![opt(53, vec![1])]).unwrap();
    let before = seed.clone();
    // Two maximal options exceed the 576-byte ceiling (240 + 2*257 + 1).
    let appends = vec![opt(43, vec![0xAB; 255]), opt(44, vec![0xCD; 255])];
    let r = build(Some(&seed), &Vec::new(), &appends);
    assert_eq!(r, Err(Dhcp4Error::OptionsOverflow));
    assert_eq!(seed, before);
}

#[test]
fn build_accepts_largest_fitting_packet() {
    // 240 + (2 + 255) + (2 + 76) + 1 == 576 exactly.
    let appends = vec![opt(43, vec![1; 255]), opt(44, vec![2; 76])];
    let p = build(None, &Vec::new(), &appends).unwrap();
    assert_eq!(encode_bytes(&p).len(), 576);
    // One byte more does not fit.
    let appends = vec![opt(43, vec![1; 255]), opt(44, vec![2; 77])];
    assert_eq!(build(None, &Vec::new(), &appends), Err(Dhcp4Error::OptionsOverflow));
}
