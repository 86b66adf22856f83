//! Tests for the netlink codec: exact request bytes, acknowledgement and
//! error decoding, dump walking with longest-prefix-match selection, and
//! the encode-decode round trip.

use routex::netlink::{
    decode_ack, decode_get_reply, decode_monitor, encode_add_request, encode_delete_request,
    encode_get_request, monitor_groups, nl_code2error, nl_dump_routes, nl_mgrp,
};
use routex::{Addr, Route, RouteChange, RouteError};

fn le16(v: u16) -> [u8; 2] {
    [(v & 0xff) as u8, (v >> 8) as u8]
}

fn le32(v: u32) -> [u8; 4] {
    [(v & 0xff) as u8, ((v >> 8) & 0xff) as u8, ((v >> 16) & 0xff) as u8, (v >> 24) as u8]
}

/// A hand-built netlink frame: header, then the given payload.
fn nl_frame(ty: u16, payload: &[u8]) -> Vec<u8> {
    let mut b = Vec::new();
    b.extend_from_slice(&le32(16 + payload.len() as u32));
    b.extend_from_slice(&le16(ty));
    b.extend_from_slice(&le16(0));
    b.extend_from_slice(&le32(1));
    b.extend_from_slice(&le32(0));
    b.extend_from_slice(payload);
    b
}

#[test]
fn add_request_exact_bytes() {
    // 10.0.0.0/8, no gateway, no interface
    let r = Route::new(Addr::V4(0x0a000000), 8);
    let b = encode_add_request(&r);
    let mut expect = Vec::new();
    expect.extend_from_slice(&le32(36)); // length: 16 + 12 + 8
    expect.extend_from_slice(&le16(24)); // new-route
    expect.extend_from_slice(&le16(0x605)); // request | excl | create | ack
    expect.extend_from_slice(&le32(1)); // sequence
    expect.extend_from_slice(&le32(0)); // port
    expect.extend_from_slice(&[2, 8, 0, 0]); // family, dst len, src len, tos
    expect.extend_from_slice(&[254, 3, 0, 1]); // table, protocol, scope, kind
    expect.extend_from_slice(&le32(0)); // route flags
    expect.extend_from_slice(&le16(8)); // attribute length
    expect.extend_from_slice(&le16(1)); // destination
    expect.extend_from_slice(&[10, 0, 0, 0]); // octets
    assert_eq!(b, expect);
}

#[test]
fn add_request_link_scope_with_interface() {
    let r = Route::new(Addr::V4(0xc0000200), 24).ifindex(3);
    let b = encode_add_request(&r);
    assert_eq!(b[0], 44); // 16 + 12 + 8 + 8
    assert_eq!(b[22], 253); // link scope
    // the interface attribute sits last
    assert_eq!(&b[36..44], &[8, 0, 4, 0, 3, 0, 0, 0]);
}

#[test]
fn delete_request_exact_header() {
    let r = Route::new(Addr::V4(0xc0000200), 24);
    let b = encode_delete_request(&r);
    assert_eq!(&b[0..4], &le32(36));
    assert_eq!(&b[4..6], &le16(25)); // del-route
    assert_eq!(&b[6..8], &le16(0x5)); // request | ack
    assert_eq!(b[16], 2); // v4 family
    assert_eq!(b[17], 24); // prefix
    assert_eq!(b[22], 255); // nowhere scope
}

#[test]
fn get_request_is_a_dump_of_the_main_table() {
    let b = encode_get_request(&Route::default());
    assert_eq!(&b[0..4], &le32(36));
    assert_eq!(&b[4..6], &le16(26)); // get-route
    assert_eq!(&b[6..8], &le16(0x301)); // request | dump
    assert_eq!(&b[28..36], &[8, 0, 15, 0, 254, 0, 0, 0]); // table attribute
}

#[test]
fn get_request_carries_the_interface_filter() {
    let b = encode_get_request(&Route::default().ifindex(9));
    assert_eq!(b[0], 44);
    assert_eq!(&b[36..44], &[8, 0, 4, 0, 9, 0, 0, 0]);
}

#[test]
fn add_round_trip_v4() {
    let r = Route::new(Addr::V4(0xc0000200), 24).ifindex(3);
    let got = decode_monitor(&encode_add_request(&r)).unwrap();
    assert_eq!(got, (RouteChange::ADD, r));
}

#[test]
fn add_round_trip_v4_with_gateway() {
    let r = Route::new(Addr::V4(0x01090405), 32).gateway(Addr::V4(0x0ad33701));
    let got = decode_monitor(&encode_add_request(&r)).unwrap();
    assert_eq!(got, (RouteChange::ADD, r));
}

#[test]
fn add_round_trip_v6() {
    let dest = Addr::V6(0x2001_0db8_0000_0000_0000_0000_0000_0000);
    let gw = Addr::V6(0xfe80_0000_0000_0000_0000_0000_0000_0001);
    let r = Route::new(dest, 32).gateway(gw).ifindex(0x0001_0000);
    let got = decode_monitor(&encode_add_request(&r)).unwrap();
    assert_eq!(got, (RouteChange::ADD, r));
}

#[test]
fn delete_notification_classifies_as_delete() {
    // a del-route frame has the same payload shape as an add
    let r = Route::new(Addr::V4(0xc0000200), 24);
    let add = encode_add_request(&r);
    let del = nl_frame(25, &add[16..]);
    let got = decode_monitor(&del).unwrap();
    assert_eq!(got.0, RouteChange::DELETE);
    assert_eq!(got.1, r);
}

#[test]
fn monitor_rejects_unexpected_subtype() {
    let b = nl_frame(16, &[0u8; 12]); // a link message, not a route one
    assert_eq!(decode_monitor(&b), Err(RouteError::UnexpectedType(16)));
}

#[test]
fn monitor_rejects_truncated_reply() {
    assert_eq!(decode_monitor(&[0u8; 10]), Err(RouteError::Truncated));
}

#[test]
fn ack_success_and_kernel_errors() {
    let ok = nl_frame(2, &le32(0));
    assert_eq!(decode_ack(&ok), Ok(()));
    let exists = nl_frame(2, &le32(-17i32 as u32));
    assert_eq!(decode_ack(&exists), Err(RouteError::AlreadyExists));
    let missing = nl_frame(2, &le32(-3i32 as u32));
    assert_eq!(decode_ack(&missing), Err(RouteError::NotFound));
    let nobufs = nl_frame(2, &le32(-105i32 as u32));
    assert_eq!(decode_ack(&nobufs), Err(RouteError::OutOfMemory));
    let other = nl_frame(2, &le32(-22i32 as u32));
    assert_eq!(decode_ack(&other), Err(RouteError::Kernel(-22)));
}

#[test]
fn ack_of_a_non_error_frame_is_success() {
    let b = nl_frame(24, &[0u8; 12]);
    assert_eq!(decode_ack(&b), Ok(()));
}

#[test]
fn ack_rejects_truncated_reply() {
    assert_eq!(decode_ack(&[0u8; 15]), Err(RouteError::Truncated));
}

#[test]
fn error_code_mapping_is_exact() {
    assert_eq!(nl_code2error(-17), RouteError::AlreadyExists);
    assert_eq!(nl_code2error(-3), RouteError::NotFound);
    assert_eq!(nl_code2error(-105), RouteError::OutOfMemory);
    assert_eq!(nl_code2error(-99), RouteError::Kernel(-99));
    assert_eq!(nl_code2error(17), RouteError::Kernel(17));
}

/// A new-route frame for a dump, built out of the add encoder's payload.
fn dump_frame(r: &Route) -> Vec<u8> {
    let add = encode_add_request(r);
    nl_frame(24, &add[16..])
}

#[test]
fn get_reply_selects_longest_prefix_match() {
    let mut reply = Vec::new();
    reply.extend_from_slice(&dump_frame(&Route::new(Addr::V4(0x0a000000), 8)));
    reply.extend_from_slice(&dump_frame(&Route::new(Addr::V4(0x0a010000), 16).ifindex(4)));
    reply.extend_from_slice(&dump_frame(&Route::new(Addr::V4(0), 0)));
    reply.extend_from_slice(&nl_frame(3, &le32(0))); // dump complete
    let req = Route::new(Addr::V4(0x0a010203), 32);
    let got = decode_get_reply(&reply, &req).unwrap();
    assert_eq!(got, Route::new(Addr::V4(0x0a010000), 16).ifindex(4));
}

#[test]
fn get_reply_without_match_yields_the_default_route() {
    let mut reply = Vec::new();
    reply.extend_from_slice(&dump_frame(&Route::new(Addr::V4(0xc0a80000), 16)));
    reply.extend_from_slice(&nl_frame(3, &le32(0)));
    let req = Route::new(Addr::V4(0x0a010203), 32);
    assert_eq!(decode_get_reply(&reply, &req).unwrap(), Route::default());
}

#[test]
fn get_reply_skips_foreign_frames_and_stops_at_done() {
    let mut reply = Vec::new();
    reply.extend_from_slice(&nl_frame(16, &[0u8; 12])); // an unrelated event
    reply.extend_from_slice(&dump_frame(&Route::new(Addr::V4(0x0a000000), 8)));
    reply.extend_from_slice(&nl_frame(3, &le32(0)));
    reply.extend_from_slice(&dump_frame(&Route::new(Addr::V4(0x0a010000), 16))); // after done
    let req = Route::new(Addr::V4(0x0a010203), 32);
    assert_eq!(decode_get_reply(&reply, &req).unwrap(), Route::new(Addr::V4(0x0a000000), 8));
}

#[test]
fn dump_routes_collects_candidates_in_order() {
    let mut reply = Vec::new();
    reply.extend_from_slice(&dump_frame(&Route::new(Addr::V4(1), 32)));
    reply.extend_from_slice(&dump_frame(&Route::new(Addr::V4(2), 32)));
    reply.extend_from_slice(&nl_frame(3, &le32(0)));
    let cands = nl_dump_routes(&reply).unwrap();
    assert_eq!(cands.len(), 2);
    assert_eq!(cands[0], Route::new(Addr::V4(1), 32));
    assert_eq!(cands[1], Route::new(Addr::V4(2), 32));
}

#[test]
fn dump_rejects_truncated_reply() {
    assert_eq!(nl_dump_routes(&[0u8; 12]), Err(RouteError::Truncated));
}

#[test]
fn dump_rejects_inconsistent_frame_length() {
    let mut b = nl_frame(24, &[0u8; 12]);
    b[0] = 200; // declared length beyond what was read
    assert_eq!(nl_dump_routes(&b), Err(RouteError::Malformed));
}

#[test]
fn dump_rejects_bad_gateway_attribute() {
    // a route payload with a 6-byte gateway attribute: no address family
    let mut payload = vec![0u8; 12];
    payload[1] = 24;
    payload.extend_from_slice(&[10, 0, 5, 0, 1, 2, 3, 4, 5, 6, 0, 0]);
    let b = nl_frame(24, &payload);
    assert_eq!(nl_dump_routes(&b), Err(RouteError::InvalidGateway));
}

#[test]
fn add_then_delete_then_add_reports_already_exists() {
    // the scenario a kernel without the entry plays out: both first calls
    // are acknowledged cleanly, the repeated add comes back with the
    // in-band "exists" code
    let r = Route::new(Addr::V4(0xc0000200), 24).ifindex(3);
    let add_req = encode_add_request(&r);
    assert_eq!(add_req[4], 24);
    let clean_ack = nl_frame(2, &le32(0));
    assert_eq!(decode_ack(&clean_ack), Ok(()));
    let del_req = encode_delete_request(&r);
    assert_eq!(del_req[4], 25);
    assert_eq!(decode_ack(&clean_ack), Ok(()));
    let exists_ack = nl_frame(2, &le32(-17i32 as u32));
    assert_eq!(decode_ack(&exists_ack), Err(RouteError::AlreadyExists));
}

#[test]
fn group_masks_match_the_protocol() {
    assert_eq!(nl_mgrp(0), 0);
    assert_eq!(nl_mgrp(7), 0x40);
    assert_eq!(nl_mgrp(11), 0x400);
    assert_eq!(nl_mgrp(27), 0x400_0000);
    assert_eq!(monitor_groups(), 0x40 | 0x400 | 0x400_0000);
}

#[test]
fn constants_agree_with_the_system_headers() {
    assert_eq!(routex::netlink::RTM_NEWROUTE, libc::RTM_NEWROUTE);
    assert_eq!(routex::netlink::RTM_DELROUTE, libc::RTM_DELROUTE);
    assert_eq!(routex::netlink::RTM_GETROUTE, libc::RTM_GETROUTE);
    assert_eq!(routex::netlink::NLMSG_ERROR as i32, libc::NLMSG_ERROR);
    assert_eq!(routex::netlink::NLMSG_DONE as i32, libc::NLMSG_DONE);
    assert_eq!(routex::netlink::NLM_F_REQUEST as i32, libc::NLM_F_REQUEST);
    assert_eq!(routex::netlink::NLM_F_ACK as i32, libc::NLM_F_ACK);
    assert_eq!(routex::netlink::NLM_F_EXCL as i32, libc::NLM_F_EXCL);
    assert_eq!(routex::netlink::NLM_F_CREATE as i32, libc::NLM_F_CREATE);
    assert_eq!(routex::netlink::NLM_F_DUMP as i32, libc::NLM_F_DUMP);
    assert_eq!(routex::netlink::RTA_DST, libc::RTA_DST);
    assert_eq!(routex::netlink::RTA_OIF, libc::RTA_OIF);
    assert_eq!(routex::netlink::RTA_GATEWAY, libc::RTA_GATEWAY);
    assert_eq!(routex::netlink::RTA_TABLE, libc::RTA_TABLE);
    assert_eq!(routex::netlink::AF_INET as i32, libc::AF_INET);
    assert_eq!(routex::netlink::AF_INET6 as i32, libc::AF_INET6);
    assert_eq!(routex::netlink::RT_TABLE_MAIN, libc::RT_TABLE_MAIN);
    assert_eq!(routex::netlink::RTPROT_BOOT, libc::RTPROT_BOOT);
    assert_eq!(routex::netlink::RT_SCOPE_UNIVERSE, libc::RT_SCOPE_UNIVERSE);
    assert_eq!(routex::netlink::RT_SCOPE_LINK, libc::RT_SCOPE_LINK);
    assert_eq!(routex::netlink::RT_SCOPE_NOWHERE, libc::RT_SCOPE_NOWHERE);
    assert_eq!(routex::netlink::RTN_UNICAST, libc::RTN_UNICAST);
    assert_eq!(routex::netlink::RTNLGRP_IPV4_ROUTE, libc::RTNLGRP_IPV4_ROUTE);
    assert_eq!(routex::netlink::RTNLGRP_IPV6_ROUTE, libc::RTNLGRP_IPV6_ROUTE);
    assert_eq!(routex::netlink::RTNLGRP_MPLS_ROUTE, libc::RTNLGRP_MPLS_ROUTE);
    assert_eq!(-17, -libc::EEXIST);
    assert_eq!(-3, -libc::ESRCH);
    assert_eq!(-105, -libc::ENOBUFS);
}
