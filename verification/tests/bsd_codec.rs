//! Tests for the routing-socket codec: exact request bytes, reply and
//! notification decoding with truncated address structures, error
//! classification, and the encode-decode round trip.

use routex::bsd::{
    code2error, decode_bsd_add_ack, decode_bsd_delete_ack, decode_bsd_get_reply,
    decode_bsd_monitor, encode_bsd_add_request, encode_bsd_delete_request, encode_bsd_get_request,
};
use routex::{Addr, Route, RouteChange, RouteError};

fn le16(v: u16) -> [u8; 2] {
    [(v & 0xff) as u8, (v >> 8) as u8]
}

fn le32(v: u32) -> [u8; 4] {
    [(v & 0xff) as u8, ((v >> 8) & 0xff) as u8, ((v >> 16) & 0xff) as u8, (v >> 24) as u8]
}

/// A hand-built reply header followed by raw slot bytes.
fn rt_msg(ty: u8, flags: u32, addrs: u32, errno: i32, slots: &[u8]) -> Vec<u8> {
    let mut b = Vec::new();
    b.extend_from_slice(&le16(92 + slots.len() as u16));
    b.push(5); // version
    b.push(ty);
    b.extend_from_slice(&le16(0)); // interface index
    b.extend_from_slice(&le16(0)); // padding
    b.extend_from_slice(&le32(flags));
    b.extend_from_slice(&le32(addrs));
    b.extend_from_slice(&le32(0)); // process id
    b.extend_from_slice(&le32(1)); // sequence
    b.extend_from_slice(&le32(errno as u32));
    b.extend_from_slice(&le32(0)); // use count
    b.extend_from_slice(&le32(0)); // inits
    b.extend_from_slice(&[0u8; 56]); // metrics
    b.extend_from_slice(slots);
    b
}

fn sockaddr_v4(addr: u32) -> Vec<u8> {
    let mut s = vec![16u8, 2, 0, 0];
    s.extend_from_slice(&addr.to_be_bytes());
    s.extend_from_slice(&[0u8; 8]);
    s
}

#[test]
fn add_request_exact_layout() {
    let r = Route::new(Addr::V4(0xc0000200), 24); // 192.0.2.0/24
    let b = encode_bsd_add_request(&r);
    assert_eq!(b.len(), 92 + 16 + 16);
    assert_eq!(&b[0..2], &le16(124)); // declared length
    assert_eq!(b[2], 5); // version
    assert_eq!(b[3], 1); // add
    assert_eq!(&b[8..12], &le32(0x801)); // static | up
    assert_eq!(&b[12..16], &le32(0x5)); // destination and netmask slots
    assert_eq!(&b[20..24], &le32(1)); // sequence
    // destination structure
    assert_eq!(&b[92..96], &[16, 2, 0, 0]);
    assert_eq!(&b[96..100], &[192, 0, 2, 0]);
    // netmask structure
    assert_eq!(&b[108..112], &[16, 2, 0, 0]);
    assert_eq!(&b[112..116], &[255, 255, 255, 0]);
}

#[test]
fn add_request_with_gateway_raises_flag_and_slot() {
    let r = Route::new(Addr::V4(0xc0000200), 24).gateway(Addr::V4(0x0a000001));
    let b = encode_bsd_add_request(&r);
    assert_eq!(&b[8..12], &le32(0x803)); // static | up | gateway
    assert_eq!(&b[12..16], &le32(0x7));
    assert_eq!(&b[108..112], &[16, 2, 0, 0]); // the gateway slot
    assert_eq!(&b[112..116], &[10, 0, 0, 1]);
}

#[test]
fn add_request_with_interface_appends_link_slot() {
    let r = Route::new(Addr::V4(0xc0000200), 24).ifindex(3);
    let b = encode_bsd_add_request(&r);
    assert_eq!(&b[12..16], &le32(0x15)); // destination, netmask, link slots
    assert_eq!(b.len(), 92 + 16 + 16 + 20);
    assert_eq!(&b[124..128], &[20, 18, 3, 0]); // link structure: length, family, index
}

#[test]
fn delete_request_exact_layout() {
    let r = Route::new(Addr::V4(0xc0000200), 24);
    let b = encode_bsd_delete_request(&r);
    assert_eq!(b[3], 2); // delete
    assert_eq!(&b[8..12], &le32(0x803));
    assert_eq!(&b[12..16], &le32(0x5));
    assert_eq!(b.len(), 124);
}

#[test]
fn get_request_has_an_empty_link_placeholder() {
    let r = Route::new(Addr::V4(0xc0000200), 24);
    let b = encode_bsd_get_request(&r);
    assert_eq!(b[3], 4); // lookup
    assert_eq!(&b[12..16], &le32(0x15));
    assert_eq!(&b[124..128], &[20, 18, 0, 0]); // index zero
}

#[test]
fn add_round_trip_v4_with_interface() {
    let r = Route::new(Addr::V4(0xc0000200), 24).ifindex(3);
    let got = decode_bsd_monitor(&encode_bsd_add_request(&r)).unwrap();
    assert_eq!(got, (RouteChange::ADD, r));
}

#[test]
fn bsd_add_round_trip_v4_with_gateway() {
    let r = Route::new(Addr::V4(0x01090405), 32).gateway(Addr::V4(0x0ad33701));
    let got = decode_bsd_monitor(&encode_bsd_add_request(&r)).unwrap();
    assert_eq!(got, (RouteChange::ADD, r));
}

#[test]
fn bsd_add_round_trip_v6() {
    let dest = Addr::V6(0x2001_0db8_0000_0000_0000_0000_0000_0000);
    let gw = Addr::V6(0xfe80_0000_0000_0000_0000_0000_0000_0001);
    let r = Route::new(dest, 48).gateway(gw).ifindex(7);
    let got = decode_bsd_monitor(&encode_bsd_add_request(&r)).unwrap();
    assert_eq!(got, (RouteChange::ADD, r));
}

#[test]
fn add_round_trip_boundary_prefixes() {
    for p in [0u8, 32] {
        let r = Route::new(Addr::V4(0), p);
        let got = decode_bsd_monitor(&encode_bsd_add_request(&r)).unwrap();
        assert_eq!(got.1.prefix, p);
    }
    for p in [0u8, 128] {
        let r = Route::new(Addr::V6(0), p);
        let got = decode_bsd_monitor(&encode_bsd_add_request(&r)).unwrap();
        assert_eq!(got.1.prefix, p);
    }
}

#[test]
fn bsd_ack_success_and_kernel_errors() {
    assert_eq!(decode_bsd_add_ack(&rt_msg(1, 0x801, 0, 0, &[])), Ok(()));
    assert_eq!(
        decode_bsd_add_ack(&rt_msg(1, 0x801, 0, 17, &[])),
        Err(RouteError::AlreadyExists)
    );
    assert_eq!(decode_bsd_delete_ack(&rt_msg(2, 0x803, 0, 0, &[])), Ok(()));
    assert_eq!(decode_bsd_delete_ack(&rt_msg(2, 0x803, 0, 3, &[])), Err(RouteError::NotFound));
}

#[test]
fn ack_rejects_unexpected_type_and_version() {
    assert_eq!(
        decode_bsd_add_ack(&rt_msg(4, 0x801, 0, 0, &[])),
        Err(RouteError::UnexpectedType(4))
    );
    let mut bad = rt_msg(1, 0x801, 0, 0, &[]);
    bad[2] = 9;
    assert_eq!(decode_bsd_add_ack(&bad), Err(RouteError::VersionMismatch(9)));
    let mut bad2 = rt_msg(2, 0x803, 0, 0, &[]);
    bad2[2] = 9;
    assert_eq!(decode_bsd_delete_ack(&bad2), Err(RouteError::VersionMismatch(9)));
}

#[test]
fn replies_shorter_than_the_header_are_truncated() {
    assert_eq!(decode_bsd_add_ack(&[0u8; 91]), Err(RouteError::Truncated));
    assert_eq!(decode_bsd_delete_ack(&[0u8; 50]), Err(RouteError::Truncated));
    assert_eq!(decode_bsd_get_reply(&[0u8; 20]), Err(RouteError::Truncated));
    assert_eq!(decode_bsd_monitor(&[0u8; 1]), Err(RouteError::Truncated));
}

#[test]
fn monitor_rejects_length_mismatch() {
    let mut b = rt_msg(1, 0, 0, 0, &[]);
    b[0] = 200; // declares more than was read
    assert_eq!(decode_bsd_monitor(&b), Err(RouteError::LengthMismatch));
}

#[test]
fn get_reply_decodes_the_resolved_route() {
    let mut slots = Vec::new();
    slots.extend_from_slice(&sockaddr_v4(0x0a010000)); // destination 10.1.0.0
    slots.extend_from_slice(&sockaddr_v4(0x0a010001)); // gateway 10.1.0.1
    slots.extend_from_slice(&sockaddr_v4(0xffff0000)); // netmask /16
    let b = rt_msg(4, 0x803, 0x7, 0, &slots);
    let got = decode_bsd_get_reply(&b).unwrap();
    assert_eq!(
        got,
        Route::new(Addr::V4(0x0a010000), 16).gateway(Addr::V4(0x0a010001))
    );
}

#[test]
fn get_reply_drops_gateway_without_flag() {
    let mut slots = Vec::new();
    slots.extend_from_slice(&sockaddr_v4(0x0a010000));
    slots.extend_from_slice(&sockaddr_v4(0x0a010001));
    let b = rt_msg(4, 0x801, 0x3, 0, &slots); // no gateway flag
    let got = decode_bsd_get_reply(&b).unwrap();
    assert_eq!(got.gateway, None);
}

#[test]
fn get_reply_reads_truncated_netmask_structures() {
    // the kernel drops a netmask's trailing zero bytes: a five-byte
    // structure carries one mask octet, and the cursor still advances by
    // a full word
    let mut slots = Vec::new();
    slots.extend_from_slice(&sockaddr_v4(0x0a000000));
    slots.extend_from_slice(&[5, 0, 0, 0, 255, 0, 0, 0]); // mask /8, padded
    slots.extend_from_slice(&[20, 18, 9, 0]); // link structure, clipped
    slots.extend_from_slice(&[0u8; 16]);
    let b = rt_msg(4, 0x801, 0x15, 0, &slots);
    let got = decode_bsd_get_reply(&b).unwrap();
    assert_eq!(got.destination, Addr::V4(0x0a000000));
    assert_eq!(got.prefix, 8);
    assert_eq!(got.ifindex, Some(9));
}

#[test]
fn get_reply_reads_zero_length_netmask_as_default() {
    let mut slots = Vec::new();
    slots.extend_from_slice(&sockaddr_v4(0));
    slots.extend_from_slice(&[0, 0, 0, 0]); // an empty netmask structure
    let b = rt_msg(4, 0x801, 0x5, 0, &slots);
    let got = decode_bsd_get_reply(&b).unwrap();
    assert_eq!(got, Route::default());
}

#[test]
fn get_reply_rejects_structure_past_the_end() {
    let mut slots = Vec::new();
    slots.extend_from_slice(&[30, 2, 0, 0]); // declares 30 bytes, 4 remain
    let b = rt_msg(4, 0x801, 0x1, 0, &slots);
    assert_eq!(decode_bsd_get_reply(&b), Err(RouteError::Malformed));
}

#[test]
fn get_reply_surfaces_kernel_errors() {
    assert_eq!(decode_bsd_get_reply(&rt_msg(4, 0, 0, 3, &[])), Err(RouteError::NotFound));
    assert_eq!(
        decode_bsd_get_reply(&rt_msg(4, 0, 0, 3436, &[])),
        Err(RouteError::OutOfMemory)
    );
}

#[test]
fn monitor_classifies_every_event_code() {
    assert_eq!(decode_bsd_monitor(&rt_msg(1, 0, 0, 0, &[])).unwrap().0, RouteChange::ADD);
    assert_eq!(decode_bsd_monitor(&rt_msg(2, 0, 0, 0, &[])).unwrap().0, RouteChange::DELETE);
    assert_eq!(decode_bsd_monitor(&rt_msg(3, 0, 0, 0, &[])).unwrap().0, RouteChange::CHANGE);
    assert_eq!(
        decode_bsd_monitor(&rt_msg(12, 0, 0, 0, &[])).unwrap().0,
        RouteChange::OTHER(12)
    );
}

#[test]
fn bsd_error_code_mapping_is_exact() {
    assert_eq!(code2error(17), RouteError::AlreadyExists);
    assert_eq!(code2error(3), RouteError::NotFound);
    assert_eq!(code2error(3436), RouteError::OutOfMemory);
    assert_eq!(code2error(55), RouteError::Kernel(55));
    assert_eq!(code2error(-1), RouteError::Kernel(-1));
}

#[test]
fn bsd_add_then_delete_then_add_reports_already_exists() {
    // the scenario a kernel without the entry plays out: both first calls
    // are acknowledged cleanly, the repeated add comes back with the
    // in-band "exists" code
    let r = Route::new(Addr::V4(0xc0000200), 24).ifindex(3);
    let add_req = encode_bsd_add_request(&r);
    assert_eq!(add_req[3], 1);
    assert_eq!(decode_bsd_add_ack(&rt_msg(1, 0x801, 0x15, 0, &[])), Ok(()));
    let del_req = encode_bsd_delete_request(&r);
    assert_eq!(del_req[3], 2);
    assert_eq!(decode_bsd_delete_ack(&rt_msg(2, 0x803, 0x5, 0, &[])), Ok(()));
    assert_eq!(
        decode_bsd_add_ack(&rt_msg(1, 0x801, 0x15, 17, &[])),
        Err(RouteError::AlreadyExists)
    );
}
