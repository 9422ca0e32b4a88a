use leroyjenkins::ack::{validate_acks, NlError};
use leroyjenkins::ip_addr::IpAddr;
use leroyjenkins::{Args, BanOutcome, Leroy};

fn args_dry(bl_threshold: u32, bl_period_ns: u64, base_ms: u64) -> Args {
    Args {
        bl_threshold,
        bl_period: bl_period_ns,
        ipset_ban_ttl: 24 * 3600 * 1_000_000_000,
        ipset_base_time: base_ms,
        table: b"t".to_vec(),
        ipset_ipv4_name: b"s4".to_vec(),
        ipset_ipv6_name: b"s6".to_vec(),
        reporting_ban_time_period: 10 * 1_000_000_000,
        reporting_ip_time_period: 10 * 1_000_000_000,
        cache_initial_capacity: 16,
        cache_max_size: 1024,
        dry_run: true,
    }
}

// Independent reconstruction of the wire format, for comparison.
fn attr(ty: u16, payload: &[u8]) -> Vec<u8> {
    let mut v = Vec::new();
    v.extend_from_slice(&((payload.len() as u16 + 4).to_le_bytes()));
    v.extend_from_slice(&ty.to_le_bytes());
    v.extend_from_slice(payload);
    while v.len() % 4 != 0 {
        v.push(0);
    }
    v
}

fn nlmsghdr(len: u32, ty: u16, flags: u16, seq: u32) -> Vec<u8> {
    let mut v = Vec::new();
    v.extend_from_slice(&len.to_le_bytes());
    v.extend_from_slice(&ty.to_le_bytes());
    v.extend_from_slice(&flags.to_le_bytes());
    v.extend_from_slice(&seq.to_le_bytes());
    v.extend_from_slice(&0u32.to_le_bytes());
    v
}

fn batch_ctl(ty: u16, seq: u32) -> Vec<u8> {
    let mut v = nlmsghdr(20, ty, 0x0001, seq);
    // Netfilter header: unspec family, version 0, nftables subsystem as
    // big-endian resource id.
    v.extend_from_slice(&[0, 0, 0, 10]);
    v
}

fn elem_msg(msg_type: u16, flags: u16, seq: u32, key: &[u8], timeout_ms: u64) -> Vec<u8> {
    let data = attr(1, key); // the key value
    let key_nest = attr(1 | 0x8000, &data);
    let mut elem_payload = key_nest.clone();
    elem_payload.extend_from_slice(&attr(4, &timeout_ms.to_be_bytes()));
    let list_elem = attr(1 | 0x8000, &elem_payload);
    let elements = attr(3 | 0x8000, &list_elem);
    let table_attr = attr(1, b"t\0");
    let set_attr = attr(2, b"s4\0");
    let body_len = 4 + table_attr.len() + set_attr.len() + elements.len();
    let mut v = nlmsghdr((16 + body_len) as u32, (10 << 8) | msg_type, 0x0001 | flags, seq);
    v.extend_from_slice(&[1, 0, 0, 0]); // inet family, version 0, res id 0
    v.extend_from_slice(&table_attr);
    v.extend_from_slice(&set_attr);
    v.extend_from_slice(&elements);
    v
}

#[test]
fn ban_batch_bytes_are_exact() {
    let mut leroy = Leroy::new(args_dry(0, 0, 30_000), 0).unwrap();
    let req = match leroy.ban(IpAddr::V4(0x01020304), 0) {
        BanOutcome::Submitted(req) => req,
        BanOutcome::AlreadyBanned => panic!("first ban suppressed"),
    };
    assert_eq!(req.recidivism, 1);
    assert_eq!(req.timeout_ms, 30_000);
    assert_eq!(req.expected_seq, 4);

    let key = [1u8, 2, 3, 4];
    let mut expected = batch_ctl(0x10, 1);
    expected.extend_from_slice(&elem_msg(12, 0x0400, 2, &key, 30_000));
    expected.extend_from_slice(&elem_msg(14, 0x0400, 3, &key, 30_000));
    expected.extend_from_slice(&elem_msg(12, 0x0400 | 0x0004, 4, &key, 30_000));
    expected.extend_from_slice(&batch_ctl(0x11, 5));
    assert_eq!(req.bytes, expected);
}

#[test]
fn v6_ban_carries_a_sixteen_byte_key() {
    let mut leroy = Leroy::new(args_dry(0, 0, 30_000), 0).unwrap();
    let ip = IpAddr::V6(0x2001_0db8_0000_0000_0000_0000_0000_0001);
    let req = match leroy.ban(ip, 0) {
        BanOutcome::Submitted(req) => req,
        BanOutcome::AlreadyBanned => panic!("first ban suppressed"),
    };
    let key = [
        0x20u8, 0x01, 0x0d, 0xb8, 0, 0, 0, 0, 0, 0, 0, 0, 0, 0, 0, 1,
    ];
    // The key value attribute: length 20, type 1, then the octets.
    let mut key_attr = vec![20u8, 0, 1, 0];
    key_attr.extend_from_slice(&key);
    let found = req
        .bytes
        .windows(key_attr.len())
        .any(|w| w == key_attr.as_slice());
    assert!(found, "no 16-byte key attribute in the batch");
}

#[test]
fn sequence_numbers_continue_across_bans() {
    let mut leroy = Leroy::new(args_dry(0, 0, 30_000), 0).unwrap();
    let first = match leroy.ban(IpAddr::V4(1), 0) {
        BanOutcome::Submitted(req) => req,
        BanOutcome::AlreadyBanned => panic!(),
    };
    let second = match leroy.ban(IpAddr::V4(2), 0) {
        BanOutcome::Submitted(req) => req,
        BanOutcome::AlreadyBanned => panic!(),
    };
    assert_eq!(first.expected_seq, 4);
    assert_eq!(second.expected_seq, 9);
}

fn err_msg(code: i32, seq: u32, pid: u32) -> Vec<u8> {
    // NLMSG_ERROR: header, the error code, then the offending header.
    let mut v = nlmsghdr(36, 0x2, 0, seq);
    v[12..16].copy_from_slice(&pid.to_le_bytes());
    v.extend_from_slice(&code.to_le_bytes());
    v.extend_from_slice(&nlmsghdr(20, 0x0A0C, 0, seq));
    v
}

#[test]
fn zero_code_acknowledges() {
    let buf = err_msg(0, 42, 7);
    assert_eq!(validate_acks(&buf, 42, 7), Ok(()));
}

#[test]
fn nonzero_code_fails_the_exchange() {
    // EPERM comes back as a negated errno.
    let buf = err_msg(-1, 42, 7);
    assert_eq!(validate_acks(&buf, 42, 7), Err(NlError::Kernel(0xFFFF_FFFF)));
    let buf = err_msg(-16, 42, 7);
    assert_eq!(validate_acks(&buf, 42, 7), Err(NlError::Kernel(0xFFFF_FFF0)));
}

#[test]
fn wrong_sequence_or_port_fails() {
    let buf = err_msg(0, 41, 7);
    assert_eq!(validate_acks(&buf, 42, 7), Err(NlError::SeqMismatch));
    let buf = err_msg(0, 42, 8);
    assert_eq!(validate_acks(&buf, 42, 7), Err(NlError::PortMismatch));
}

#[test]
fn empty_and_foreign_responses_pass() {
    assert_eq!(validate_acks(&[], 42, 7), Ok(()));
    // A message of an uninteresting type is skipped.
    let mut buf = nlmsghdr(16, 0x0A00, 0, 42);
    buf[12..16].copy_from_slice(&7u32.to_le_bytes());
    assert_eq!(validate_acks(&buf, 42, 7), Ok(()));
}

#[test]
fn interrupted_dump_is_rejected() {
    // NLM_F_DUMP_INTR set on an otherwise well-formed message.
    let mut buf = nlmsghdr(16, 0x0A00, 0x10, 42);
    buf[12..16].copy_from_slice(&7u32.to_le_bytes());
    assert_eq!(validate_acks(&buf, 42, 7), Err(NlError::Interrupted));
}

#[test]
fn truncated_error_message_is_rejected() {
    let mut v = nlmsghdr(20, 0x2, 0, 42);
    v[12..16].copy_from_slice(&7u32.to_le_bytes());
    v.extend_from_slice(&0i32.to_le_bytes());
    assert_eq!(validate_acks(&v, 42, 7), Err(NlError::BadMessage));
}
