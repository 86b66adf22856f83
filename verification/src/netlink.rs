//! The netlink route codec: byte-exact encoding of route requests and
//! decoding of kernel replies and notifications for the message-attribute
//! protocol.
//!
//! A message is a 16-byte header (length, type, flags, sequence number,
//! port), a 12-byte fixed route part (family, prefix lengths, table,
//! protocol, scope, kind, flags) and a stream of self-describing
//! attributes, each aligned to four bytes.  Requests carry a fixed
//! sequence number: one transaction is outstanding per socket at a time,
//! and the caller serialises its calls.

use crate::select::{candidate_matches, select_route, select_spec};
use crate::wire::{
    align4, align4_up, be32_bytes, be32_val, be128_bytes, be128_val_at, le16_bytes, le16_val,
    le32_bytes, le32_val, lemma_le16_roundtrip, put_be32, put_be128, put_u16_le, put_u32_le,
    read_be32, read_be128, read_u16_le, read_u32_le,
};
use crate::{Addr, Route, RouteChange, RouteError};
use vstd::prelude::*;

verus! {

pub const RTM_NEWROUTE: u16 = 24;

pub const RTM_DELROUTE: u16 = 25;

pub const RTM_GETROUTE: u16 = 26;

pub const NLMSG_ERROR: u16 = 2;

pub const NLMSG_DONE: u16 = 3;

pub const NLM_F_REQUEST: u16 = 0x1;

pub const NLM_F_ACK: u16 = 0x4;

pub const NLM_F_EXCL: u16 = 0x200;

pub const NLM_F_CREATE: u16 = 0x400;

pub const NLM_F_DUMP: u16 = 0x300;

/// Flags of an add request: create, fail if the entry exists, ask for an
/// acknowledgement.
pub const NLM_FLAGS_ADD: u16 = 0x605;

/// Flags of a delete request: a plain acknowledged request.
pub const NLM_FLAGS_DEL: u16 = 0x5;

/// Flags of a lookup request: a streamed table dump.
pub const NLM_FLAGS_GET: u16 = 0x301;

pub const RTA_DST: u16 = 1;

pub const RTA_OIF: u16 = 4;

pub const RTA_GATEWAY: u16 = 5;

pub const RTA_TABLE: u16 = 15;

pub const AF_INET: u8 = 2;

pub const AF_INET6: u8 = 10;

pub const RT_TABLE_MAIN: u8 = 254;

pub const RTPROT_UNSPEC: u8 = 0;

pub const RTPROT_BOOT: u8 = 3;

pub const RT_SCOPE_UNIVERSE: u8 = 0;

pub const RT_SCOPE_LINK: u8 = 253;

pub const RT_SCOPE_NOWHERE: u8 = 255;

pub const RTN_UNSPEC: u8 = 0;

pub const RTN_UNICAST: u8 = 1;

pub const RTNLGRP_IPV4_ROUTE: u32 = 7;

pub const RTNLGRP_IPV6_ROUTE: u32 = 11;

pub const RTNLGRP_MPLS_ROUTE: u32 = 27;

/// The multicast-group bit a group number selects in a netlink bind
/// address.
pub open spec fn nl_mgrp_spec(group: u32) -> u32
    recommends
        group <= 31,
{
    if group == 0 {
        0
    } else {
        1u32 << ((group - 1) as u32)
    }
}

/// The multicast-group bit of a group number.  Groups above 31 have no
/// bit in the bind address and must be joined through a socket option
/// instead.
pub fn nl_mgrp(group: u32) -> (r: u32)
    requires
        group <= 31,
    ensures
        r == nl_mgrp_spec(group),
{
    if group == 0 {
        0
    } else {
        1u32 << (group - 1)
    }
}

/// The bind-address group mask that subscribes a socket to the v4, v6 and
/// MPLS route-change notifications.
pub fn monitor_groups() -> (r: u32)
    ensures
        r == nl_mgrp_spec(RTNLGRP_IPV4_ROUTE) | nl_mgrp_spec(RTNLGRP_IPV6_ROUTE) | nl_mgrp_spec(
            RTNLGRP_MPLS_ROUTE,
        ),
{
    nl_mgrp(RTNLGRP_IPV4_ROUTE) | nl_mgrp(RTNLGRP_IPV6_ROUTE) | nl_mgrp(RTNLGRP_MPLS_ROUTE)
}

// ---------------------------------------------------------------------------
// Encoding.
// ---------------------------------------------------------------------------

/// The network-order octets of an address.
pub open spec fn addr_bytes(a: Addr) -> Seq<u8> {
    match a {
        Addr::V4(x) => be32_bytes(x),
        Addr::V6(x) => be128_bytes(x),
    }
}

/// The netlink address-family code of an address.
pub open spec fn nl_family(a: Addr) -> u8 {
    match a {
        Addr::V4(_) => AF_INET,
        Addr::V6(_) => AF_INET6,
    }
}

/// The 16-byte netlink message header.
pub open spec fn nl_header_bytes(len: u32, ty: u16, flags: u16, seqno: u32, pid: u32) -> Seq<u8> {
    le32_bytes(len) + le16_bytes(ty) + le16_bytes(flags) + le32_bytes(seqno) + le32_bytes(pid)
}

/// The 12-byte fixed route part.  The source prefix length, the type of
/// service and the route flags are always zero here.
pub open spec fn rtmsg_bytes(family: u8, dst_len: u8, table: u8, protocol: u8, scope: u8, kind: u8) -> Seq<u8> {
    seq![family, dst_len, 0u8, 0u8, table, protocol, scope, kind] + le32_bytes(0)
}

/// One attribute: its own length, its type, its payload.  Every payload
/// written here is a multiple of four bytes long, so no padding follows.
pub open spec fn attr_bytes(ty: u16, payload: Seq<u8>) -> Seq<u8> {
    le16_bytes((payload.len() + 4) as u16) + le16_bytes(ty) + payload
}

/// The attribute stream describing a route: destination, then gateway if
/// present, then egress interface if present.
pub open spec fn route_attrs_bytes(r: Route) -> Seq<u8> {
    attr_bytes(RTA_DST, addr_bytes(r.destination)) + (match r.gateway {
        Some(g) => attr_bytes(RTA_GATEWAY, addr_bytes(g)),
        None => Seq::<u8>::empty(),
    }) + (match r.ifindex {
        Some(ix) => attr_bytes(RTA_OIF, le32_bytes(ix)),
        None => Seq::<u8>::empty(),
    })
}

/// The scope of an add request: global, narrowed to the link when only an
/// interface index names the next hop.
pub open spec fn add_scope(r: Route) -> u8 {
    if r.ifindex is Some {
        RT_SCOPE_LINK
    } else {
        RT_SCOPE_UNIVERSE
    }
}

/// The whole add request: create in the main table as a static unicast
/// route, failing if the entry exists.
pub open spec fn add_request_bytes(r: Route) -> Seq<u8> {
    let attrs = route_attrs_bytes(r);
    nl_header_bytes((28 + attrs.len()) as u32, RTM_NEWROUTE, NLM_FLAGS_ADD, 1, 0) + rtmsg_bytes(
        nl_family(r.destination),
        r.prefix,
        RT_TABLE_MAIN,
        RTPROT_BOOT,
        add_scope(r),
        RTN_UNICAST,
    ) + attrs
}

/// The whole delete request: destination and prefix only, with no
/// particular scope.
pub open spec fn delete_request_bytes(r: Route) -> Seq<u8> {
    let attrs = attr_bytes(RTA_DST, addr_bytes(r.destination));
    nl_header_bytes((28 + attrs.len()) as u32, RTM_DELROUTE, NLM_FLAGS_DEL, 1, 0) + rtmsg_bytes(
        nl_family(r.destination),
        r.prefix,
        RT_TABLE_MAIN,
        RTPROT_UNSPEC,
        RT_SCOPE_NOWHERE,
        RTN_UNSPEC,
    ) + attrs
}

/// The whole lookup request: a dump of the v4 main table, optionally
/// filtered by egress interface.
pub open spec fn get_request_bytes(r: Route) -> Seq<u8> {
    let attrs = attr_bytes(RTA_TABLE, le32_bytes(RT_TABLE_MAIN as u32)) + (match r.ifindex {
        Some(ix) => attr_bytes(RTA_OIF, le32_bytes(ix)),
        None => Seq::<u8>::empty(),
    });
    nl_header_bytes((28 + attrs.len()) as u32, RTM_GETROUTE, NLM_FLAGS_GET, 1, 0) + rtmsg_bytes(
        AF_INET,
        0,
        0,
        RTPROT_UNSPEC,
        RT_SCOPE_UNIVERSE,
        RTN_UNSPEC,
    ) + attrs
}

/// Appends a netlink message header.
fn put_nl_header(out: &mut Vec<u8>, len: u32, ty: u16, flags: u16, seqno: u32, pid: u32)
    ensures
        final(out)@ == old(out)@ + nl_header_bytes(len, ty, flags, seqno, pid),
{
    put_u32_le(out, len);
    put_u16_le(out, ty);
    put_u16_le(out, flags);
    put_u32_le(out, seqno);
    put_u32_le(out, pid);
    assert(out@ =~= old(out)@ + nl_header_bytes(len, ty, flags, seqno, pid));
}

/// Appends the fixed route part.
fn put_rtmsg(out: &mut Vec<u8>, family: u8, dst_len: u8, table: u8, protocol: u8, scope: u8, kind: u8)
    ensures
        final(out)@ == old(out)@ + rtmsg_bytes(family, dst_len, table, protocol, scope, kind),
{
    out.push(family);
    out.push(dst_len);
    out.push(0);
    out.push(0);
    out.push(table);
    out.push(protocol);
    out.push(scope);
    out.push(kind);
    put_u32_le(out, 0);
    assert(out@ =~= old(out)@ + rtmsg_bytes(family, dst_len, table, protocol, scope, kind));
}

/// Appends an address-valued attribute.
fn put_attr_addr(out: &mut Vec<u8>, ty: u16, a: &Addr)
    ensures
        final(out)@ == old(out)@ + attr_bytes(ty, addr_bytes(*a)),
{
    match a {
        Addr::V4(x) => {
            put_u16_le(out, 8);
            put_u16_le(out, ty);
            put_be32(out, *x);
        },
        Addr::V6(x) => {
            put_u16_le(out, 20);
            put_u16_le(out, ty);
            put_be128(out, *x);
        },
    }
    assert(out@ =~= old(out)@ + attr_bytes(ty, addr_bytes(*a)));
}

/// Appends a 32-bit-valued attribute.
fn put_attr_u32(out: &mut Vec<u8>, ty: u16, v: u32)
    ensures
        final(out)@ == old(out)@ + attr_bytes(ty, le32_bytes(v)),
{
    put_u16_le(out, 8);
    put_u16_le(out, ty);
    put_u32_le(out, v);
    assert(out@ =~= old(out)@ + attr_bytes(ty, le32_bytes(v)));
}

/// The encoded length of an address attribute.
fn addr_attr_len(a: &Addr) -> (r: u32)
    ensures
        r == attr_bytes(0, addr_bytes(*a)).len(),
{
    match a {
        Addr::V4(_) => 8,
        Addr::V6(_) => 20,
    }
}

/// Encodes an add request for a route.
pub fn encode_add_request(route: &Route) -> (r: Vec<u8>)
    requires
        route.wf(),
    ensures
        r@ == add_request_bytes(*route),
{
    let dst_len = addr_attr_len(&route.destination);
    let gw_len: u32 = match &route.gateway {
        Some(g) => addr_attr_len(g),
        None => 0,
    };
    let oif_len: u32 = match route.ifindex {
        Some(_) => 8,
        None => 0,
    };
    let total: u32 = 28 + dst_len + gw_len + oif_len;
    let scope = match route.ifindex {
        Some(_) => RT_SCOPE_LINK,
        None => RT_SCOPE_UNIVERSE,
    };
    let family = match route.destination {
        Addr::V4(_) => AF_INET,
        Addr::V6(_) => AF_INET6,
    };
    let mut out: Vec<u8> = Vec::new();
    put_nl_header(&mut out, total, RTM_NEWROUTE, NLM_FLAGS_ADD, 1, 0);
    put_rtmsg(&mut out, family, route.prefix, RT_TABLE_MAIN, RTPROT_BOOT, scope, RTN_UNICAST);
    put_attr_addr(&mut out, RTA_DST, &route.destination);
    match &route.gateway {
        Some(g) => put_attr_addr(&mut out, RTA_GATEWAY, g),
        None => (),
    }
    match route.ifindex {
        Some(ix) => put_attr_u32(&mut out, RTA_OIF, ix),
        None => (),
    }
    assert(out@ =~= add_request_bytes(*route));
    out
}

/// Encodes a delete request for a route.
pub fn encode_delete_request(route: &Route) -> (r: Vec<u8>)
    requires
        route.wf(),
    ensures
        r@ == delete_request_bytes(*route),
{
    let dst_len = addr_attr_len(&route.destination);
    let total: u32 = 28 + dst_len;
    let family = match route.destination {
        Addr::V4(_) => AF_INET,
        Addr::V6(_) => AF_INET6,
    };
    let mut out: Vec<u8> = Vec::new();
    put_nl_header(&mut out, total, RTM_DELROUTE, NLM_FLAGS_DEL, 1, 0);
    put_rtmsg(
        &mut out,
        family,
        route.prefix,
        RT_TABLE_MAIN,
        RTPROT_UNSPEC,
        RT_SCOPE_NOWHERE,
        RTN_UNSPEC,
    );
    put_attr_addr(&mut out, RTA_DST, &route.destination);
    assert(out@ =~= delete_request_bytes(*route));
    out
}

/// Encodes a lookup request: a dump of the v4 main routing table,
/// filtered by the request's egress interface when one is set.
pub fn encode_get_request(route: &Route) -> (r: Vec<u8>)
    ensures
        r@ == get_request_bytes(*route),
{
    let oif_len: u32 = match route.ifindex {
        Some(_) => 8,
        None => 0,
    };
    let total: u32 = 36 + oif_len;
    let mut out: Vec<u8> = Vec::new();
    put_nl_header(&mut out, total, RTM_GETROUTE, NLM_FLAGS_GET, 1, 0);
    put_rtmsg(&mut out, AF_INET, 0, 0, RTPROT_UNSPEC, RT_SCOPE_UNIVERSE, RTN_UNSPEC);
    put_attr_u32(&mut out, RTA_TABLE, RT_TABLE_MAIN as u32);
    match route.ifindex {
        Some(ix) => put_attr_u32(&mut out, RTA_OIF, ix),
        None => (),
    }
    assert(out@ =~= get_request_bytes(*route));
    out
}

// ---------------------------------------------------------------------------
// Decoding.
// ---------------------------------------------------------------------------

/// How the netlink in-band error code maps to the portable categories.
/// The kernel reports a negated errno value; zero never reaches this map.
pub open spec fn nl_error_of(code: i32) -> RouteError {
    if code == -17 {
        RouteError::AlreadyExists
    } else if code == -3 {
        RouteError::NotFound
    } else if code == -105 {
        RouteError::OutOfMemory
    } else {
        RouteError::Kernel(code)
    }
}

/// Maps a netlink in-band error code to the portable error taxonomy:
/// "entry exists" and "no such entry" and "no buffer space" have named
/// categories, and any other code is carried through for diagnostics.
pub fn nl_code2error(code: i32) -> (r: RouteError)
    ensures
        r == nl_error_of(code),
{
    match code {
        -17 => RouteError::AlreadyExists,
        -3 => RouteError::NotFound,
        -105 => RouteError::OutOfMemory,
        _ => RouteError::Kernel(code),
    }
}

/// What one attribute contributes to the route being assembled.  The
/// destination and gateway attributes carry a four- or sixteen-byte
/// address, the egress-interface attribute a 32-bit index; unknown
/// attribute types change nothing.
pub open spec fn attr_apply(ty: u16, payload: Seq<u8>, acc: Route) -> Result<Route, RouteError> {
    if ty == RTA_DST {
        if payload.len() == 4 {
            Ok(
                Route {
                    destination: Addr::V4(be32_val(payload[0], payload[1], payload[2], payload[3])),
                    ..acc
                },
            )
        } else if payload.len() == 16 {
            Ok(Route { destination: Addr::V6(be128_val_at(payload, 0)), ..acc })
        } else {
            Err(RouteError::Malformed)
        }
    } else if ty == RTA_GATEWAY {
        if payload.len() == 4 {
            Ok(
                Route {
                    gateway: Some(
                        Addr::V4(be32_val(payload[0], payload[1], payload[2], payload[3])),
                    ),
                    ..acc
                },
            )
        } else if payload.len() == 16 {
            Ok(Route { gateway: Some(Addr::V6(be128_val_at(payload, 0))), ..acc })
        } else {
            Err(RouteError::InvalidGateway)
        }
    } else if ty == RTA_OIF {
        if payload.len() == 4 {
            Ok(
                Route {
                    ifindex: Some(le32_val(payload[0], payload[1], payload[2], payload[3])),
                    ..acc
                },
            )
        } else {
            Err(RouteError::Malformed)
        }
    } else {
        Ok(acc)
    }
}

/// The walk over an attribute stream: each attribute declares its own
/// length, and the cursor advances by that length rounded up to four-byte
/// alignment.
pub open spec fn parse_attrs(a: Seq<u8>, acc: Route) -> Result<Route, RouteError>
    decreases a.len(),
{
    if a.len() == 0 {
        Ok(acc)
    } else if a.len() < 4 {
        Err(RouteError::Malformed)
    } else {
        let alen = le16_val(a[0], a[1]) as int;
        let aty = le16_val(a[2], a[3]);
        if alen < 4 || alen > a.len() {
            Err(RouteError::Malformed)
        } else {
            match attr_apply(aty, a.subrange(4, alen), acc) {
                Err(e) => Err(e),
                Ok(acc2) => if align4(alen) >= a.len() {
                    Ok(acc2)
                } else {
                    parse_attrs(a.skip(align4(alen)), acc2)
                },
            }
        }
    }
}

/// The payload of a route message: the 12-byte fixed part, whose second
/// byte is the destination prefix length, then the attribute stream.
pub open spec fn parse_route_payload(p: Seq<u8>) -> Result<Route, RouteError> {
    if p.len() < 12 {
        Err(RouteError::Malformed)
    } else {
        parse_attrs(
            p.skip(12),
            Route { destination: Addr::V4(0), prefix: p[1], gateway: None, ifindex: None },
        )
    }
}

/// The walk over the frames of a dump reply: frames follow one another at
/// their declared lengths until the dump-complete marker or the end of
/// what was read; each new-route frame contributes one candidate, and
/// frames of any other type are passed over.
pub open spec fn parse_frames(b: Seq<u8>, acc: Seq<Route>) -> Result<Seq<Route>, RouteError>
    decreases b.len(),
{
    if b.len() == 0 {
        Ok(acc)
    } else if b.len() < 16 {
        Err(RouteError::Malformed)
    } else {
        let len = le32_val(b[0], b[1], b[2], b[3]) as int;
        let ty = le16_val(b[4], b[5]);
        if len < 16 || len > b.len() {
            Err(RouteError::Malformed)
        } else if ty == NLMSG_DONE {
            Ok(acc)
        } else if ty == RTM_NEWROUTE {
            match parse_route_payload(b.subrange(16, len)) {
                Err(e) => Err(e),
                Ok(r) => parse_frames(b.skip(len), acc.push(r)),
            }
        } else {
            parse_frames(b.skip(len), acc)
        }
    }
}

/// The candidate routes of a dump reply.  A reply shorter than one fixed
/// header is rejected outright.
pub open spec fn dump_routes_spec(b: Seq<u8>) -> Result<Seq<Route>, RouteError> {
    if b.len() < 16 {
        Err(RouteError::Truncated)
    } else {
        parse_frames(b, Seq::<Route>::empty())
    }
}

/// A whole lookup transaction's reply: the dump's candidates put through
/// the longest-prefix-match selection, the unspecified route when none
/// matches.
pub open spec fn get_reply_spec(b: Seq<u8>, req: Route) -> Result<Route, RouteError> {
    match dump_routes_spec(b) {
        Err(e) => Err(e),
        Ok(cands) => Ok(
            match select_spec(cands, req) {
                Some(r) => r,
                None => Route::unspecified(),
            },
        ),
    }
}

/// An add or delete acknowledgement: an error frame carries a 32-bit
/// in-band code, zero for success; any frame of another type acknowledges
/// silently.
pub open spec fn ack_spec(b: Seq<u8>) -> Result<(), RouteError> {
    if b.len() < 16 {
        Err(RouteError::Truncated)
    } else {
        let len = le32_val(b[0], b[1], b[2], b[3]) as int;
        let ty = le16_val(b[4], b[5]);
        if len < 16 || len > b.len() {
            Err(RouteError::Malformed)
        } else if ty == NLMSG_ERROR {
            if len < 20 {
                Err(RouteError::Malformed)
            } else {
                let code = le32_val(b[16], b[17], b[18], b[19]) as i32;
                if code == 0 {
                    Ok(())
                } else {
                    Err(nl_error_of(code))
                }
            }
        } else {
            Ok(())
        }
    }
}

/// A change notification: a new-route frame is an addition, a del-route
/// frame a deletion, and a frame of any other type is reported as the
/// unexpected subtype it is.
pub open spec fn monitor_spec(b: Seq<u8>) -> Result<(RouteChange, Route), RouteError> {
    if b.len() < 16 {
        Err(RouteError::Truncated)
    } else {
        let len = le32_val(b[0], b[1], b[2], b[3]) as int;
        let ty = le16_val(b[4], b[5]);
        if len < 16 || len > b.len() {
            Err(RouteError::Malformed)
        } else if ty == RTM_NEWROUTE {
            match parse_route_payload(b.subrange(16, len)) {
                Err(e) => Err(e),
                Ok(r) => Ok((RouteChange::ADD, r)),
            }
        } else if ty == RTM_DELROUTE {
            match parse_route_payload(b.subrange(16, len)) {
                Err(e) => Err(e),
                Ok(r) => Ok((RouteChange::DELETE, r)),
            }
        } else {
            Err(RouteError::UnexpectedType(ty))
        }
    }
}

/// Decodes the payload of one route message.
fn parse_route_slice(p: &[u8]) -> (r: Result<Route, RouteError>)
    ensures
        r == parse_route_payload(p@),
{
    let n = p.len();
    if n < 12 {
        return Err(RouteError::Malformed);
    }
    let mut acc = Route { destination: Addr::V4(0), prefix: p[1], gateway: None, ifindex: None };
    let mut off: usize = 12;
    while off < n
        invariant
            12 <= off <= n,
            n == p@.len(),
            parse_attrs(p@.skip(off as int), acc) == parse_route_payload(p@),
        decreases n - off,
    {
        let ghost a = p@.skip(off as int);
        let rem = n - off;
        if rem < 4 {
            return Err(RouteError::Malformed);
        }
        let alen = read_u16_le(p, off) as usize;
        let aty = read_u16_le(p, off + 2);
        if alen < 4 || alen > rem {
            return Err(RouteError::Malformed);
        }
        let ghost payload = a.subrange(4, alen as int);
        proof {
            assert(payload =~= p@.subrange(off + 4, off + alen));
        }
        let plen = alen - 4;
        let ghost acc_in = acc;
        if aty == RTA_DST {
            if plen == 4 {
                acc.destination = Addr::V4(read_be32(p, off + 4));
            } else if plen == 16 {
                acc.destination = Addr::V6(read_be128(p, off + 4));
            } else {
                return Err(RouteError::Malformed);
            }
        } else if aty == RTA_GATEWAY {
            if plen == 4 {
                acc.gateway = Some(Addr::V4(read_be32(p, off + 4)));
            } else if plen == 16 {
                acc.gateway = Some(Addr::V6(read_be128(p, off + 4)));
            } else {
                return Err(RouteError::InvalidGateway);
            }
        } else if aty == RTA_OIF {
            if plen == 4 {
                acc.ifindex = Some(read_u32_le(p, off + 4));
            } else {
                return Err(RouteError::Malformed);
            }
        }
        proof {
            if plen == 16 && (aty == RTA_DST || aty == RTA_GATEWAY) {
                assert(be128_val_at(payload, 0) == be128_val_at(p@, off + 4));
            }
            assert(attr_apply(aty, payload, acc_in) == Ok::<Route, RouteError>(acc));
        }
        let adv = align4_up(alen);
        if adv >= rem {
            return Ok(acc);
        }
        proof {
            assert(a.skip(align4(alen as int)) =~= p@.skip(off + adv));
        }
        off = off + adv;
    }
    Ok(acc)
}

/// Decodes the candidate routes of a dump reply.
pub fn nl_dump_routes(b: &[u8]) -> (r: Result<Vec<Route>, RouteError>)
    ensures
        match r {
            Ok(v) => dump_routes_spec(b@) == Ok::<Seq<Route>, RouteError>(v@),
            Err(e) => dump_routes_spec(b@) == Err::<Seq<Route>, RouteError>(e),
        },
{
    let n = b.len();
    if n < 16 {
        return Err(RouteError::Truncated);
    }
    let mut cands: Vec<Route> = Vec::new();
    let mut off: usize = 0;
    proof {
        assert(b@.skip(0) =~= b@);
    }
    while off < n
        invariant
            off <= n,
            n == b@.len(),
            parse_frames(b@.skip(off as int), cands@) == dump_routes_spec(b@),
        decreases n - off,
    {
        let ghost fr = b@.skip(off as int);
        let rem = n - off;
        if rem < 16 {
            return Err(RouteError::Malformed);
        }
        let flen = read_u32_le(b, off) as usize;
        let ty = read_u16_le(b, off + 4);
        if flen < 16 || flen > rem {
            return Err(RouteError::Malformed);
        }
        if ty == NLMSG_DONE {
            return Ok(cands);
        }
        if ty == RTM_NEWROUTE {
            proof {
                assert(fr.subrange(16, flen as int) =~= b@.subrange(off + 16, off + flen));
            }
            match parse_route_slice(&b[off + 16..off + flen]) {
                Err(e) => {
                    return Err(e);
                },
                Ok(rt) => {
                    cands.push(rt);
                },
            }
        }
        proof {
            assert(fr.skip(flen as int) =~= b@.skip(off + flen));
        }
        off = off + flen;
    }
    Ok(cands)
}

/// Decodes a whole lookup reply: walks the dump's frames and selects the
/// longest matching prefix, returning the unspecified route when no
/// candidate matches the request.
pub fn decode_get_reply(b: &[u8], req: &Route) -> (r: Result<Route, RouteError>)
    ensures
        match r {
            Ok(rt) => get_reply_spec(b@, *req) == Ok::<Route, RouteError>(rt),
            Err(e) => get_reply_spec(b@, *req) == Err::<Route, RouteError>(e),
        },
{
    match nl_dump_routes(b) {
        Err(e) => Err(e),
        Ok(cands) => match select_route(&cands, req) {
            Some(rt) => Ok(rt),
            None => Ok(Route::default()),
        },
    }
}

/// What a decoded lookup reply means: whenever the dump decodes at all,
/// so does the whole reply, and the route it yields is a dump candidate
/// that matches the request and has the greatest prefix length among the
/// matching candidates — or the unspecified route, exactly when no
/// candidate matches.
pub proof fn lemma_get_reply_is_longest_match(b: Seq<u8>, req: Route)
    requires
        dump_routes_spec(b) is Ok,
    ensures
        get_reply_spec(b, req) is Ok,
        ({
            let cands = dump_routes_spec(b)->Ok_0;
            let rt = get_reply_spec(b, req)->Ok_0;
            if exists|i: int| 0 <= i < cands.len() && candidate_matches(#[trigger] cands[i], req) {
                &&& candidate_matches(rt, req)
                &&& exists|i: int| 0 <= i < cands.len() && cands[i] == rt
                &&& forall|i: int|
                    0 <= i < cands.len() && candidate_matches(#[trigger] cands[i], req) ==> cands[
                        i
                    ].prefix <= rt.prefix
            } else {
                rt == Route::unspecified()
            }
        }),
{
    let cands = dump_routes_spec(b)->Ok_0;
    crate::select::lemma_select_is_longest_match(cands, req);
}

/// Decodes an add or delete acknowledgement, mapping a nonzero in-band
/// code to the portable error taxonomy.
pub fn decode_ack(b: &[u8]) -> (r: Result<(), RouteError>)
    ensures
        match r {
            Ok(u) => ack_spec(b@) == Ok::<(), RouteError>(u),
            Err(e) => ack_spec(b@) == Err::<(), RouteError>(e),
        },
{
    let n = b.len();
    if n < 16 {
        return Err(RouteError::Truncated);
    }
    let flen = read_u32_le(b, 0) as usize;
    let ty = read_u16_le(b, 4);
    if flen < 16 || flen > n {
        return Err(RouteError::Malformed);
    }
    if ty == NLMSG_ERROR {
        if flen < 20 {
            return Err(RouteError::Malformed);
        }
        let code = read_u32_le(b, 16) as i32;
        if code == 0 {
            Ok(())
        } else {
            Err(nl_code2error(code))
        }
    } else {
        Ok(())
    }
}

/// Decodes a change notification frame.
pub fn decode_monitor(b: &[u8]) -> (r: Result<(RouteChange, Route), RouteError>)
    ensures
        match r {
            Ok(cr) => monitor_spec(b@) == Ok::<(RouteChange, Route), RouteError>(cr),
            Err(e) => monitor_spec(b@) == Err::<(RouteChange, Route), RouteError>(e),
        },
{
    let n = b.len();
    if n < 16 {
        return Err(RouteError::Truncated);
    }
    let flen = read_u32_le(b, 0) as usize;
    let ty = read_u16_le(b, 4);
    if flen < 16 || flen > n {
        return Err(RouteError::Malformed);
    }
    if ty == RTM_NEWROUTE || ty == RTM_DELROUTE {
        match parse_route_slice(&b[16..flen]) {
            Err(e) => Err(e),
            Ok(rt) => {
                if ty == RTM_NEWROUTE {
                    Ok((RouteChange::ADD, rt))
                } else {
                    Ok((RouteChange::DELETE, rt))
                }
            },
        }
    } else {
        Err(RouteError::UnexpectedType(ty))
    }
}

// ---------------------------------------------------------------------------
// The encode-decode round trip.
// ---------------------------------------------------------------------------

/// One attribute consumed from the front of an attribute stream: the walk
/// applies it and continues behind it.
proof fn lemma_parse_attrs_step(a: Seq<u8>, ty: u16, payload: Seq<u8>, rest: Seq<u8>, acc: Route, acc2: Route)
    requires
        a == attr_bytes(ty, payload) + rest,
        payload.len() == 4 || payload.len() == 16,
        attr_apply(ty, payload, acc) == Ok::<Route, RouteError>(acc2),
    ensures
        parse_attrs(a, acc) == (if rest.len() == 0 {
            Ok::<Route, RouteError>(acc2)
        } else {
            parse_attrs(rest, acc2)
        }),
{
    let alen = (payload.len() + 4) as u16;
    lemma_le16_roundtrip(alen);
    lemma_le16_roundtrip(ty);
    assert(a[0] == le16_bytes(alen)[0] && a[1] == le16_bytes(alen)[1]);
    assert(le16_val(a[0], a[1]) == alen);
    assert(a[2] == le16_bytes(ty)[0] && a[3] == le16_bytes(ty)[1]);
    assert(le16_val(a[2], a[3]) == ty);
    assert(a.subrange(4, alen as int) =~= payload);
    assert(align4(alen as int) == alen as int);
    if rest.len() != 0 {
        assert(a.skip(alen as int) =~= rest);
    }
}

/// Decoding the destination attribute restores the encoded address.
proof fn lemma_attr_apply_addr(ty: u16, x: Addr, acc: Route)
    requires
        ty == RTA_DST || ty == RTA_GATEWAY,
    ensures
        ty == RTA_DST ==> attr_apply(ty, addr_bytes(x), acc) == Ok::<Route, RouteError>(
            Route { destination: x, ..acc },
        ),
        ty == RTA_GATEWAY ==> attr_apply(ty, addr_bytes(x), acc) == Ok::<Route, RouteError>(
            Route { gateway: Some(x), ..acc },
        ),
{
    match x {
        Addr::V4(v) => {
            crate::wire::lemma_be32_roundtrip(v);
        },
        Addr::V6(v) => {
            crate::wire::lemma_be128_roundtrip(v);
        },
    }
}

/// Round trip of the netlink codec: decoding the codec's own add request
/// as if it were a route notification reproduces the route exactly — the
/// destination, the prefix length, the gateway and the interface index.
#[verifier::rlimit(100)]
#[verifier::spinoff_prover]
pub proof fn lemma_nl_add_roundtrip(r: Route)
    requires
        r.wf(),
    ensures
        monitor_spec(add_request_bytes(r)) == Ok::<(RouteChange, Route), RouteError>(
            (RouteChange::ADD, r),
        ),
{
    let attrs = route_attrs_bytes(r);
    let dst_attr = attr_bytes(RTA_DST, addr_bytes(r.destination));
    let gw_attr = match r.gateway {
        Some(g) => attr_bytes(RTA_GATEWAY, addr_bytes(g)),
        None => Seq::<u8>::empty(),
    };
    let oif_attr = match r.ifindex {
        Some(ix) => attr_bytes(RTA_OIF, le32_bytes(ix)),
        None => Seq::<u8>::empty(),
    };
    let total = (28 + attrs.len()) as u32;
    let b = add_request_bytes(r);
    assert(attrs == dst_attr + gw_attr + oif_attr);
    assert(8 <= attrs.len() <= 48);
    assert(b.len() == 28 + attrs.len());
    // the header fields read back as written
    crate::wire::lemma_le32_roundtrip(total);
    lemma_le16_roundtrip(RTM_NEWROUTE);
    assert(le32_val(b[0], b[1], b[2], b[3]) == total);
    assert(le16_val(b[4], b[5]) == RTM_NEWROUTE);
    // the payload splits back into the fixed part and the attributes
    let p = b.subrange(16, total as int);
    assert(p.len() == 12 + attrs.len());
    assert(p[1] == r.prefix);
    assert(p.skip(12) =~= attrs);
    let acc0 = Route { destination: Addr::V4(0), prefix: r.prefix, gateway: None, ifindex: None };
    assert(parse_route_payload(p) == parse_attrs(attrs, acc0));
    // the destination attribute
    let acc1 = Route { destination: r.destination, ..acc0 };
    assert(attrs =~= dst_attr + (gw_attr + oif_attr));
    lemma_attr_apply_addr(RTA_DST, r.destination, acc0);
    lemma_parse_attrs_step(attrs, RTA_DST, addr_bytes(r.destination), gw_attr + oif_attr, acc0, acc1);
    // the gateway attribute, when present
    let acc2 = match r.gateway {
        Some(g) => Route { gateway: Some(g), ..acc1 },
        None => acc1,
    };
    match r.gateway {
        Some(g) => {
            lemma_attr_apply_addr(RTA_GATEWAY, g, acc1);
            lemma_parse_attrs_step(gw_attr + oif_attr, RTA_GATEWAY, addr_bytes(g), oif_attr, acc1, acc2);
        },
        None => {
            assert(gw_attr + oif_attr =~= oif_attr);
        },
    }
    // the interface attribute, when present
    let acc3 = match r.ifindex {
        Some(ix) => Route { ifindex: Some(ix), ..acc2 },
        None => acc2,
    };
    match r.ifindex {
        Some(ix) => {
            crate::wire::lemma_le32_roundtrip(ix);
            assert(attr_apply(RTA_OIF, le32_bytes(ix), acc2) == Ok::<Route, RouteError>(acc3));
            lemma_parse_attrs_step(oif_attr, RTA_OIF, le32_bytes(ix), Seq::<u8>::empty(), acc2, acc3);
        },
        None => {
        },
    }
    if r.ifindex is None && r.gateway is Some {
        assert(oif_attr.len() == 0);
    }
    assert(parse_attrs(attrs, acc0) == Ok::<Route, RouteError>(acc3));
    assert(acc3 == r);
}

} // verus!
