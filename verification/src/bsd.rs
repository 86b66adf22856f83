//! The routing-socket codec: byte-exact encoding of route requests and
//! decoding of kernel replies and notifications for the fixed-header,
//! bitmask-driven protocol of the BSD kernel family.
//!
//! A message is a 92-byte fixed header (length, version, type, flags, the
//! bitmask naming which address slots follow, sequence number, error code,
//! metrics) followed by address structures packed in canonical slot order:
//! destination, gateway, netmask, genmask, interface address and link, in
//! rising bit order.  Each structure declares its own length, and the
//! cursor advances by that length rounded up to word alignment.  Requests
//! carry a fixed sequence number: one transaction is outstanding per
//! socket at a time, and the caller serialises its calls.

use crate::wire::{
    be32_bytes, be32_val, be128_bytes, be128_val_at, le16_bytes, le16_val, le32_bytes, le32_val,
    lemma_le16_roundtrip, put_be32, put_be128, put_u16_le, put_u32_le, read_u16_le, read_u32_le,
    sa_advance, sa_advance_up,
};
use crate::{Addr, Route, RouteChange, RouteError, route_change_of};
use vstd::prelude::*;

verus! {

pub const RTM_VERSION: u8 = 5;

pub const RTM_ADD: u8 = 1;

pub const RTM_DELETE: u8 = 2;

pub const RTM_CHANGE: u8 = 3;

pub const RTM_GET: u8 = 4;

pub const RTA_DST: u32 = 0x1;

pub const RTA_GATEWAY: u32 = 0x2;

pub const RTA_NETMASK: u32 = 0x4;

pub const RTA_GENMASK: u32 = 0x8;

pub const RTA_IFP: u32 = 0x10;

pub const RTA_IFA: u32 = 0x20;

pub const RTAX_MAX: u32 = 8;

pub const RTF_UP: u32 = 0x1;

pub const RTF_GATEWAY: u32 = 0x2;

pub const RTF_STATIC: u32 = 0x800;

pub const AF_INET: u8 = 2;

pub const AF_INET6: u8 = 30;

pub const AF_LINK: u8 = 18;

/// The size of the fixed message header.
pub const HDR_LEN: usize = 92;

/// The kernel's code for an entry that already exists.
pub const ERR_EXIST: i32 = 17;

/// The kernel's code for a missing entry.
pub const ERR_SRCH: i32 = 3;

/// The code this protocol client maps to "no buffer space".
pub const ERR_NOBUFS: i32 = 3436;

/// How the routing-socket in-band error code maps to the portable
/// categories.
pub open spec fn bsd_error_of(err: i32) -> RouteError {
    if err == ERR_EXIST {
        RouteError::AlreadyExists
    } else if err == ERR_SRCH {
        RouteError::NotFound
    } else if err == ERR_NOBUFS {
        RouteError::OutOfMemory
    } else {
        RouteError::Kernel(err)
    }
}

/// Maps a routing-socket in-band error code to the portable error
/// taxonomy: "entry exists" and "no such entry" and "no buffer space"
/// have named categories, and any other code is carried through for
/// diagnostics.
pub fn code2error(err: i32) -> (r: RouteError)
    ensures
        r == bsd_error_of(err),
{
    if err == ERR_EXIST {
        RouteError::AlreadyExists
    } else if err == ERR_SRCH {
        RouteError::NotFound
    } else if err == ERR_NOBUFS {
        RouteError::OutOfMemory
    } else {
        RouteError::Kernel(err)
    }
}

// ---------------------------------------------------------------------------
// Encoding.
// ---------------------------------------------------------------------------

/// A run of zero bytes: padding and cleared fields.
pub open spec fn zero_bytes(n: int) -> Seq<u8> {
    Seq::new(n as nat, |i: int| 0u8)
}

/// Appends `n` zero bytes.
pub fn put_zeros(out: &mut Vec<u8>, n: usize)
    ensures
        final(out)@ == old(out)@ + zero_bytes(n as int),
{
    let mut k: usize = 0;
    while k < n
        invariant
            k <= n,
            out@ == old(out)@ + zero_bytes(k as int),
        decreases n - k,
    {
        out.push(0);
        proof {
            assert(out@ =~= old(out)@ + zero_bytes(k + 1));
        }
        k = k + 1;
    }
}

/// The 92-byte fixed header.  The version is fixed; the interface index,
/// process id, use count, inits and all metrics are zero.
pub open spec fn rt_header_bytes(msglen: u16, ty: u8, flags: u32, addrs: u32, seqno: u32, errno: u32) -> Seq<u8> {
    le16_bytes(msglen) + seq![RTM_VERSION, ty] + le16_bytes(0) + le16_bytes(0) + le32_bytes(flags)
        + le32_bytes(addrs) + le32_bytes(0) + le32_bytes(seqno) + le32_bytes(errno) + le32_bytes(0)
        + le32_bytes(0) + zero_bytes(56)
}

/// Appends the fixed header.
fn put_rt_header(out: &mut Vec<u8>, msglen: u16, ty: u8, flags: u32, addrs: u32, seqno: u32, errno: u32)
    ensures
        final(out)@ == old(out)@ + rt_header_bytes(msglen, ty, flags, addrs, seqno, errno),
{
    put_u16_le(out, msglen);
    out.push(RTM_VERSION);
    out.push(ty);
    put_u16_le(out, 0);
    put_u16_le(out, 0);
    put_u32_le(out, flags);
    put_u32_le(out, addrs);
    put_u32_le(out, 0);
    put_u32_le(out, seqno);
    put_u32_le(out, errno);
    put_u32_le(out, 0);
    put_u32_le(out, 0);
    put_zeros(out, 56);
    assert(out@ =~= old(out)@ + rt_header_bytes(msglen, ty, flags, addrs, seqno, errno));
}

/// A v4 address structure: its length, its family, a cleared port, the
/// four address octets, and eight bytes of padding.
pub open spec fn sockaddr_in_bytes(x: u32) -> Seq<u8> {
    seq![16u8, AF_INET] + le16_bytes(0) + be32_bytes(x) + zero_bytes(8)
}

/// A v6 address structure: its length, its family, a cleared port and
/// flow label, the sixteen address octets, and a cleared scope.
pub open spec fn sockaddr_in6_bytes(x: u128) -> Seq<u8> {
    seq![28u8, AF_INET6] + le16_bytes(0) + le32_bytes(0) + be128_bytes(x) + le32_bytes(0)
}

/// The address structure of either family.
pub open spec fn sockaddr_addr_bytes(a: Addr) -> Seq<u8> {
    match a {
        Addr::V4(x) => sockaddr_in_bytes(x),
        Addr::V6(x) => sockaddr_in6_bytes(x),
    }
}

/// The declared length of an address structure.
pub open spec fn sa_addr_len(a: Addr) -> int {
    match a {
        Addr::V4(_) => 16,
        Addr::V6(_) => 28,
    }
}

/// A link-level address structure carrying an interface index and nothing
/// else.
pub open spec fn sockaddr_dl_bytes(ifindex: u16) -> Seq<u8> {
    seq![20u8, AF_LINK] + le16_bytes(ifindex) + zero_bytes(16)
}

/// Appends an address structure.
fn put_sockaddr_addr(out: &mut Vec<u8>, a: &Addr)
    ensures
        final(out)@ == old(out)@ + sockaddr_addr_bytes(*a),
{
    match a {
        Addr::V4(x) => {
            out.push(16);
            out.push(AF_INET);
            put_u16_le(out, 0);
            put_be32(out, *x);
            put_zeros(out, 8);
        },
        Addr::V6(x) => {
            out.push(28);
            out.push(AF_INET6);
            put_u16_le(out, 0);
            put_u32_le(out, 0);
            put_be128(out, *x);
            put_u32_le(out, 0);
        },
    }
    assert(out@ =~= old(out)@ + sockaddr_addr_bytes(*a));
}

/// Appends a link-level address structure.
fn put_sockaddr_dl(out: &mut Vec<u8>, ifindex: u16)
    ensures
        final(out)@ == old(out)@ + sockaddr_dl_bytes(ifindex),
{
    out.push(20);
    out.push(AF_LINK);
    put_u16_le(out, ifindex);
    put_zeros(out, 16);
    assert(out@ =~= old(out)@ + sockaddr_dl_bytes(ifindex));
}

/// The slot bitmask of an add request: destination and netmask always,
/// gateway and interface link slots as present.
pub open spec fn bsd_add_addrs(r: Route) -> u32 {
    (RTA_DST + RTA_NETMASK + (if r.gateway is Some {
        RTA_GATEWAY as int
    } else {
        0
    }) + (if r.ifindex is Some {
        RTA_IFP as int
    } else {
        0
    })) as u32
}

/// The header flags of an add request: a static route that is up, marked
/// gateway-routed when a gateway is present.
pub open spec fn bsd_add_flags(r: Route) -> u32 {
    if r.gateway is Some {
        0x803
    } else {
        0x801
    }
}

/// The whole add request: header, then the present address structures in
/// canonical slot order — destination, gateway, netmask, interface link.
pub open spec fn bsd_add_request_bytes(r: Route) -> Seq<u8> {
    let attrs = sockaddr_addr_bytes(r.destination) + (match r.gateway {
        Some(g) => sockaddr_addr_bytes(g),
        None => Seq::<u8>::empty(),
    }) + sockaddr_addr_bytes(r.mask_spec()) + (match r.ifindex {
        Some(ix) => sockaddr_dl_bytes(ix as u16),
        None => Seq::<u8>::empty(),
    });
    rt_header_bytes((92 + attrs.len()) as u16, RTM_ADD, bsd_add_flags(r), bsd_add_addrs(r), 1, 0)
        + attrs
}

/// The whole delete request: destination and netmask only, as a static
/// up gateway-capable entry.
pub open spec fn bsd_delete_request_bytes(r: Route) -> Seq<u8> {
    let attrs = sockaddr_addr_bytes(r.destination) + sockaddr_addr_bytes(r.mask_spec());
    rt_header_bytes((92 + attrs.len()) as u16, RTM_DELETE, 0x803, 0x5, 1, 0) + attrs
}

/// The whole lookup request: destination, netmask and an empty interface
/// slot as a placeholder for the kernel to fill.
pub open spec fn bsd_get_request_bytes(r: Route) -> Seq<u8> {
    let attrs = sockaddr_addr_bytes(r.destination) + sockaddr_addr_bytes(r.mask_spec())
        + sockaddr_dl_bytes(0);
    rt_header_bytes((92 + attrs.len()) as u16, RTM_GET, 0x803, 0x15, 1, 0) + attrs
}

/// Encodes an add request for a route.
#[verifier::rlimit(100)]
#[verifier::spinoff_prover]
pub fn encode_bsd_add_request(route: &Route) -> (r: Vec<u8>)
    requires
        route.wf(),
    ensures
        r@ == bsd_add_request_bytes(*route),
{
    let dst_len: usize = match route.destination {
        Addr::V4(_) => 16,
        Addr::V6(_) => 28,
    };
    let gw_len: usize = match &route.gateway {
        Some(Addr::V4(_)) => 16,
        Some(Addr::V6(_)) => 28,
        None => 0,
    };
    let dl_len: usize = match route.ifindex {
        Some(_) => 20,
        None => 0,
    };
    let msglen: u16 = (92 + dst_len + gw_len + dst_len + dl_len) as u16;
    let flags: u32 = match &route.gateway {
        Some(_) => 0x803,
        None => 0x801,
    };
    let addrs: u32 = RTA_DST + RTA_NETMASK + (match &route.gateway {
        Some(_) => RTA_GATEWAY,
        None => 0,
    }) + (match route.ifindex {
        Some(_) => RTA_IFP,
        None => 0,
    });
    let mut out: Vec<u8> = Vec::new();
    put_rt_header(&mut out, msglen, RTM_ADD, flags, addrs, 1, 0);
    put_sockaddr_addr(&mut out, &route.destination);
    match &route.gateway {
        Some(g) => put_sockaddr_addr(&mut out, g),
        None => (),
    }
    let mask = route.mask();
    put_sockaddr_addr(&mut out, &mask);
    match route.ifindex {
        Some(ix) => put_sockaddr_dl(&mut out, ix as u16),
        None => (),
    }
    assert(out@ =~= bsd_add_request_bytes(*route));
    out
}

/// Encodes a delete request for a route.
pub fn encode_bsd_delete_request(route: &Route) -> (r: Vec<u8>)
    requires
        route.wf(),
    ensures
        r@ == bsd_delete_request_bytes(*route),
{
    let dst_len: usize = match route.destination {
        Addr::V4(_) => 16,
        Addr::V6(_) => 28,
    };
    let msglen: u16 = (92 + 2 * dst_len) as u16;
    let mut out: Vec<u8> = Vec::new();
    put_rt_header(&mut out, msglen, RTM_DELETE, 0x803, 0x5, 1, 0);
    put_sockaddr_addr(&mut out, &route.destination);
    let mask = route.mask();
    put_sockaddr_addr(&mut out, &mask);
    assert(out@ =~= bsd_delete_request_bytes(*route));
    out
}

/// Encodes a lookup request for a route.
pub fn encode_bsd_get_request(route: &Route) -> (r: Vec<u8>)
    requires
        route.wf(),
    ensures
        r@ == bsd_get_request_bytes(*route),
{
    let dst_len: usize = match route.destination {
        Addr::V4(_) => 16,
        Addr::V6(_) => 28,
    };
    let msglen: u16 = (92 + 2 * dst_len + 20) as u16;
    let mut out: Vec<u8> = Vec::new();
    put_rt_header(&mut out, msglen, RTM_GET, 0x803, 0x15, 1, 0);
    put_sockaddr_addr(&mut out, &route.destination);
    let mask = route.mask();
    put_sockaddr_addr(&mut out, &mask);
    put_sockaddr_dl(&mut out, 0);
    assert(out@ =~= bsd_get_request_bytes(*route));
    out
}

// ---------------------------------------------------------------------------
// Decoding.
// ---------------------------------------------------------------------------

/// One byte of an address structure: bytes beyond the structure's
/// declared length read as zero, since the kernel truncates trailing
/// zeros.
pub open spec fn sa_byte(b: Seq<u8>, cur: int, sa_len: int, k: int) -> u8 {
    if k < sa_len {
        b[cur + k]
    } else {
        0
    }
}

/// The sixteen v6 address octets of an address structure, zero-filled
/// beyond its declared length.
pub open spec fn sa_v6_octets(b: Seq<u8>, cur: int, sa_len: int) -> Seq<u8> {
    Seq::new(16, |i: int| sa_byte(b, cur, sa_len, 8 + i))
}

/// The address an address structure carries, read under the given family:
/// the v4 family takes four octets after the port field, any other family
/// is read as a v6 structure with its octets deeper in.
pub open spec fn sa_addr_value(b: Seq<u8>, cur: int, sa_len: int, family: u8) -> Addr {
    if family == AF_INET {
        Addr::V4(
            be32_val(
                sa_byte(b, cur, sa_len, 4),
                sa_byte(b, cur, sa_len, 5),
                sa_byte(b, cur, sa_len, 6),
                sa_byte(b, cur, sa_len, 7),
            ),
        )
    } else {
        Addr::V6(be128_val_at(sa_v6_octets(b, cur, sa_len), 0))
    }
}

/// The family byte an address structure declares, zero when truncated
/// away.
pub open spec fn sa_family(b: Seq<u8>, cur: int, sa_len: int) -> u8 {
    sa_byte(b, cur, sa_len, 1)
}

/// What one present slot contributes to the route being assembled.  The
/// gateway is kept only when the header flags mark the route
/// gateway-routed; the netmask is read under the destination's family
/// and turned back into a prefix length; the interface link slot yields
/// the index.  Slots of the remaining bits change nothing.
pub open spec fn slot_apply(b: Seq<u8>, bit: u32, cur: int, sa_len: int, flags: u32, acc: Route) -> Route {
    if bit == 0 {
        Route { destination: sa_addr_value(b, cur, sa_len, sa_family(b, cur, sa_len)), ..acc }
    } else if bit == 1 {
        let g = sa_addr_value(b, cur, sa_len, sa_family(b, cur, sa_len));
        Route {
            gateway: if flags & RTF_GATEWAY != 0 {
                Some(g)
            } else {
                None
            },
            ..acc
        }
    } else if bit == 2 {
        let fam: u8 = if acc.destination is V4 {
            AF_INET
        } else {
            AF_INET6
        };
        Route { prefix: Route::prefix_of_mask(sa_addr_value(b, cur, sa_len, fam)), ..acc }
    } else if bit == 4 {
        Route {
            ifindex: Some(le16_val(sa_byte(b, cur, sa_len, 2), sa_byte(b, cur, sa_len, 3)) as u32),
            ..acc
        }
    } else {
        acc
    }
}

/// The walk over the address slots: bits of the mask are visited from the
/// least significant upward; a present bit consumes one address structure
/// and advances the cursor by its declared length rounded up to word
/// alignment; an absent bit consumes nothing.  The walk stops at the end
/// of what was read, and a structure reaching past it is an error.
pub open spec fn parse_slots(b: Seq<u8>, addrs: u32, flags: u32, bit: u32, cur: int, acc: Route) -> Result<Route, RouteError>
    decreases 8 - bit,
{
    if bit >= 8 {
        Ok(acc)
    } else if cur >= b.len() {
        Ok(acc)
    } else if (addrs >> bit) & 1 == 0 {
        parse_slots(b, addrs, flags, (bit + 1) as u32, cur, acc)
    } else {
        let sa_len = b[cur] as int;
        if cur + sa_len > b.len() {
            Err(RouteError::Malformed)
        } else {
            parse_slots(
                b,
                addrs,
                flags,
                (bit + 1) as u32,
                cur + sa_advance(sa_len),
                slot_apply(b, bit, cur, sa_len, flags, acc),
            )
        }
    }
}

/// A lookup reply: version and in-band error code checked, the declared
/// length held against what was read, then the slot walk from the
/// unspecified route.
pub open spec fn bsd_get_reply_spec(b: Seq<u8>) -> Result<Route, RouteError> {
    if b.len() < 92 {
        Err(RouteError::Truncated)
    } else if b[2] != RTM_VERSION {
        Err(RouteError::VersionMismatch(b[2]))
    } else if le32_val(b[24], b[25], b[26], b[27]) as i32 != 0 {
        Err(bsd_error_of(le32_val(b[24], b[25], b[26], b[27]) as i32))
    } else if le16_val(b[0], b[1]) > b.len() {
        Err(RouteError::LengthMismatch)
    } else {
        parse_slots(
            b,
            le32_val(b[12], b[13], b[14], b[15]),
            le32_val(b[8], b[9], b[10], b[11]),
            0,
            92,
            Route::unspecified(),
        )
    }
}

/// An add acknowledgement: the reply must be an add message of the known
/// version, and its in-band code decides the outcome.
pub open spec fn bsd_add_ack_spec(b: Seq<u8>) -> Result<(), RouteError> {
    if b.len() < 92 {
        Err(RouteError::Truncated)
    } else if b[3] != RTM_ADD {
        Err(RouteError::UnexpectedType(b[3] as u16))
    } else if b[2] != RTM_VERSION {
        Err(RouteError::VersionMismatch(b[2]))
    } else if le32_val(b[24], b[25], b[26], b[27]) as i32 != 0 {
        Err(bsd_error_of(le32_val(b[24], b[25], b[26], b[27]) as i32))
    } else {
        Ok(())
    }
}

/// A delete acknowledgement: version checked, the in-band code decides.
pub open spec fn bsd_delete_ack_spec(b: Seq<u8>) -> Result<(), RouteError> {
    if b.len() < 92 {
        Err(RouteError::Truncated)
    } else if b[2] != RTM_VERSION {
        Err(RouteError::VersionMismatch(b[2]))
    } else if le32_val(b[24], b[25], b[26], b[27]) as i32 != 0 {
        Err(bsd_error_of(le32_val(b[24], b[25], b[26], b[27]) as i32))
    } else {
        Ok(())
    }
}

/// A change notification: length and version checked, the one-byte type
/// classified, and the slots decoded into the route the event names.
pub open spec fn bsd_monitor_spec(b: Seq<u8>) -> Result<(RouteChange, Route), RouteError> {
    if b.len() < 92 {
        Err(RouteError::Truncated)
    } else if le16_val(b[0], b[1]) > b.len() {
        Err(RouteError::LengthMismatch)
    } else if b[2] != RTM_VERSION {
        Err(RouteError::VersionMismatch(b[2]))
    } else {
        match parse_slots(
            b,
            le32_val(b[12], b[13], b[14], b[15]),
            le32_val(b[8], b[9], b[10], b[11]),
            0,
            92,
            Route::unspecified(),
        ) {
            Err(e) => Err(e),
            Ok(rt) => Ok((route_change_of(b[3]), rt)),
        }
    }
}

/// Reads one zero-filled byte of an address structure.
fn sa_byte_read(b: &[u8], cur: usize, sa_len: usize, k: usize) -> (r: u8)
    requires
        cur + sa_len <= b@.len(),
    ensures
        r == sa_byte(b@, cur as int, sa_len as int, k as int),
{
    // the slice length fits a machine word, which bounds the offsets
    let _bound = b.len();
    if k < sa_len {
        b[cur + k]
    } else {
        0
    }
}

/// Reads the address an address structure carries under the given
/// family.
fn read_sa_addr(b: &[u8], cur: usize, sa_len: usize, family: u8) -> (r: Addr)
    requires
        cur + sa_len <= b@.len(),
    ensures
        r == sa_addr_value(b@, cur as int, sa_len as int, family),
{
    if family == AF_INET {
        Addr::V4(
            be32_val_read(
                sa_byte_read(b, cur, sa_len, 4),
                sa_byte_read(b, cur, sa_len, 5),
                sa_byte_read(b, cur, sa_len, 6),
                sa_byte_read(b, cur, sa_len, 7),
            ),
        )
    } else {
        let mut octets: Vec<u8> = Vec::new();
        let mut k: usize = 0;
        while k < 16
            invariant
                k <= 16,
                cur + sa_len <= b@.len(),
                octets@ == sa_v6_octets(b@, cur as int, sa_len as int).take(k as int),
            decreases 16 - k,
        {
            octets.push(sa_byte_read(b, cur, sa_len, 8 + k));
            proof {
                assert(octets@ =~= sa_v6_octets(b@, cur as int, sa_len as int).take(k + 1));
            }
            k = k + 1;
        }
        proof {
            assert(octets@ =~= sa_v6_octets(b@, cur as int, sa_len as int));
        }
        Addr::V6(crate::wire::read_be128(octets.as_slice(), 0))
    }
}

/// Assembles a 32-bit value from four big-endian octets.
fn be32_val_read(b0: u8, b1: u8, b2: u8, b3: u8) -> (r: u32)
    ensures
        r == be32_val(b0, b1, b2, b3),
{
    0x100_0000 * (b0 as u32) + 0x1_0000 * (b1 as u32) + 0x100 * (b2 as u32) + b3 as u32
}

/// Walks the address slots of a reply whose header has been checked.
fn parse_slots_exec(b: &[u8], addrs: u32, flags: u32, acc0: Route) -> (r: Result<Route, RouteError>)
    requires
        b@.len() >= 92,
    ensures
        r == parse_slots(b@, addrs, flags, 0, 92, acc0),
{
    let n = b.len();
    let mut acc = acc0;
    let mut cur: usize = 92;
    let ghost mut gcur: int = 92;
    let mut bit: u32 = 0;
    while bit < 8
        invariant
            bit <= 8,
            n == b@.len(),
            92 <= gcur,
            gcur < n ==> cur == gcur,
            gcur >= n ==> cur == n,
            cur <= n,
            parse_slots(b@, addrs, flags, bit, gcur, acc) == parse_slots(b@, addrs, flags, 0, 92, acc0),
        decreases 8 - bit,
    {
        if cur >= n {
            return Ok(acc);
        }
        if (addrs >> bit) & 1 != 0 {
            let sa_len = b[cur] as usize;
            if sa_len > n - cur {
                return Err(RouteError::Malformed);
            }
            let fam = sa_byte_read(b, cur, sa_len, 1);
            if bit == 0 {
                acc.destination = read_sa_addr(b, cur, sa_len, fam);
            } else if bit == 1 {
                let g = read_sa_addr(b, cur, sa_len, fam);
                acc.gateway = if flags & RTF_GATEWAY != 0 {
                    Some(g)
                } else {
                    None
                };
            } else if bit == 2 {
                let forced: u8 = if acc.destination.is_v4() {
                    AF_INET
                } else {
                    AF_INET6
                };
                let mask = read_sa_addr(b, cur, sa_len, forced);
                acc.cidr(mask);
            } else if bit == 4 {
                let ix = le16_val_read(
                    sa_byte_read(b, cur, sa_len, 2),
                    sa_byte_read(b, cur, sa_len, 3),
                );
                acc.ifindex = Some(ix as u32);
            }
            let adv = sa_advance_up(sa_len);
            proof {
                gcur = gcur + sa_advance(sa_len as int);
            }
            if adv >= n - cur {
                cur = n;
            } else {
                cur = cur + adv;
            }
        }
        bit = bit + 1;
    }
    Ok(acc)
}

/// Assembles a 16-bit value from two little-endian bytes.
fn le16_val_read(b0: u8, b1: u8) -> (r: u16)
    ensures
        r == le16_val(b0, b1),
{
    b0 as u16 + 0x100 * (b1 as u16)
}

/// Decodes a lookup reply into the route the kernel resolved.
pub fn decode_bsd_get_reply(b: &[u8]) -> (r: Result<Route, RouteError>)
    ensures
        match r {
            Ok(rt) => bsd_get_reply_spec(b@) == Ok::<Route, RouteError>(rt),
            Err(e) => bsd_get_reply_spec(b@) == Err::<Route, RouteError>(e),
        },
{
    let n = b.len();
    if n < 92 {
        return Err(RouteError::Truncated);
    }
    if b[2] != RTM_VERSION {
        return Err(RouteError::VersionMismatch(b[2]));
    }
    let errno = read_u32_le(b, 24) as i32;
    if errno != 0 {
        return Err(code2error(errno));
    }
    let msglen = read_u16_le(b, 0);
    if msglen as usize > n {
        return Err(RouteError::LengthMismatch);
    }
    let addrs = read_u32_le(b, 12);
    let flags = read_u32_le(b, 8);
    parse_slots_exec(b, addrs, flags, Route::default())
}

/// Decodes an add acknowledgement.
pub fn decode_bsd_add_ack(b: &[u8]) -> (r: Result<(), RouteError>)
    ensures
        match r {
            Ok(u) => bsd_add_ack_spec(b@) == Ok::<(), RouteError>(u),
            Err(e) => bsd_add_ack_spec(b@) == Err::<(), RouteError>(e),
        },
{
    let n = b.len();
    if n < 92 {
        return Err(RouteError::Truncated);
    }
    if b[3] != RTM_ADD {
        return Err(RouteError::UnexpectedType(b[3] as u16));
    }
    if b[2] != RTM_VERSION {
        return Err(RouteError::VersionMismatch(b[2]));
    }
    let errno = read_u32_le(b, 24) as i32;
    if errno != 0 {
        return Err(code2error(errno));
    }
    Ok(())
}

/// Decodes a delete acknowledgement.
pub fn decode_bsd_delete_ack(b: &[u8]) -> (r: Result<(), RouteError>)
    ensures
        match r {
            Ok(u) => bsd_delete_ack_spec(b@) == Ok::<(), RouteError>(u),
            Err(e) => bsd_delete_ack_spec(b@) == Err::<(), RouteError>(e),
        },
{
    let n = b.len();
    if n < 92 {
        return Err(RouteError::Truncated);
    }
    if b[2] != RTM_VERSION {
        return Err(RouteError::VersionMismatch(b[2]));
    }
    let errno = read_u32_le(b, 24) as i32;
    if errno != 0 {
        return Err(code2error(errno));
    }
    Ok(())
}

/// Decodes a change notification into its classification and the route
/// it names.
pub fn decode_bsd_monitor(b: &[u8]) -> (r: Result<(RouteChange, Route), RouteError>)
    ensures
        match r {
            Ok(cr) => bsd_monitor_spec(b@) == Ok::<(RouteChange, Route), RouteError>(cr),
            Err(e) => bsd_monitor_spec(b@) == Err::<(RouteChange, Route), RouteError>(e),
        },
{
    let n = b.len();
    if n < 92 {
        return Err(RouteError::Truncated);
    }
    let msglen = read_u16_le(b, 0);
    if msglen as usize > n {
        return Err(RouteError::LengthMismatch);
    }
    if b[2] != RTM_VERSION {
        return Err(RouteError::VersionMismatch(b[2]));
    }
    let addrs = read_u32_le(b, 12);
    let flags = read_u32_le(b, 8);
    match parse_slots_exec(b, addrs, flags, Route::default()) {
        Err(e) => Err(e),
        Ok(rt) => Ok((RouteChange::from(b[3]), rt)),
    }
}

// ---------------------------------------------------------------------------
// ---------------------------------------------------------------------------
// The encode-decode round trip.
// ---------------------------------------------------------------------------

/// Reading back an address structure the codec wrote restores the
/// address, under the structure's own declared family.
proof fn lemma_read_sockaddr_addr(b: Seq<u8>, cur: int, a: Addr)
    requires
        0 <= cur,
        cur + sa_addr_len(a) <= b.len(),
        b.subrange(cur, cur + sa_addr_len(a)) == sockaddr_addr_bytes(a),
    ensures
        b[cur] == sa_addr_len(a),
        sa_family(b, cur, sa_addr_len(a)) == (match a {
            Addr::V4(_) => AF_INET,
            Addr::V6(_) => AF_INET6,
        }),
        sa_addr_value(
            b,
            cur,
            sa_addr_len(a),
            match a {
                Addr::V4(_) => AF_INET,
                Addr::V6(_) => AF_INET6,
            },
        ) == a,
{
    let s = b.subrange(cur, cur + sa_addr_len(a));
    match a {
        Addr::V4(x) => {
            assert(s[0] == 16 && s[1] == AF_INET);
            assert(sa_byte(b, cur, 16, 4) == s[4] && sa_byte(b, cur, 16, 5) == s[5] && sa_byte(
                b,
                cur,
                16,
                6,
            ) == s[6] && sa_byte(b, cur, 16, 7) == s[7]);
            assert(s[4] == be32_bytes(x)[0] && s[5] == be32_bytes(x)[1] && s[6] == be32_bytes(x)[2]
                && s[7] == be32_bytes(x)[3]);
            crate::wire::lemma_be32_roundtrip(x);
        },
        Addr::V6(x) => {
            assert(s[0] == 28 && s[1] == AF_INET6);
            assert forall|i: int| 0 <= i < 16 implies sa_v6_octets(b, cur, 28)[i] == be128_bytes(
                x,
            )[i] by {
                assert(sa_v6_octets(b, cur, 28)[i] == sa_byte(b, cur, 28, 8 + i));
                assert(sa_byte(b, cur, 28, 8 + i) == b[cur + 8 + i]);
                assert(b[cur + 8 + i] == s[8 + i]);
                assert(s[8 + i] == be128_bytes(x)[i]);
            }
            assert(sa_v6_octets(b, cur, 28) =~= be128_bytes(x));
            crate::wire::lemma_be128_roundtrip(x);
        },
    }
}

/// The header fields of an encoded message read back as written, and the
/// address structures follow the header.
proof fn lemma_rt_header_reads(b: Seq<u8>, msglen: u16, ty: u8, flags: u32, addrs: u32, seqno: u32, errno: u32, rest: Seq<u8>)
    requires
        b == rt_header_bytes(msglen, ty, flags, addrs, seqno, errno) + rest,
    ensures
        b.len() == 92 + rest.len(),
        le16_val(b[0], b[1]) == msglen,
        b[2] == RTM_VERSION,
        b[3] == ty,
        le32_val(b[8], b[9], b[10], b[11]) == flags,
        le32_val(b[12], b[13], b[14], b[15]) == addrs,
        le32_val(b[24], b[25], b[26], b[27]) == errno,
        b.subrange(92, b.len() as int) == rest,
{
    lemma_le16_roundtrip(msglen);
    crate::wire::lemma_le32_roundtrip(flags);
    crate::wire::lemma_le32_roundtrip(addrs);
    crate::wire::lemma_le32_roundtrip(errno);
    assert(b.subrange(92, b.len() as int) =~= rest);
}

/// A window into the part of a message that follows the header is the
/// same window into the address structures themselves.
proof fn lemma_attr_window(b: Seq<u8>, attrs: Seq<u8>, x: int, y: int)
    requires
        b.len() == 92 + attrs.len(),
        b.subrange(92, b.len() as int) == attrs,
        0 <= x <= y <= attrs.len(),
    ensures
        b.subrange(92 + x, 92 + y) == attrs.subrange(x, y),
{
    assert forall|i: int| 0 <= i < y - x implies b.subrange(92 + x, 92 + y)[i] == attrs.subrange(
        x,
        y,
    )[i] by {
        assert(attrs[x + i] == b.subrange(92, b.len() as int)[x + i]);
    }
    assert(b.subrange(92 + x, 92 + y) =~= attrs.subrange(x, y));
}

/// The four pieces of an encoded add request's address region, cut back
/// out of their concatenation.
proof fn lemma_concat4_pieces(s: Seq<u8>, p1: Seq<u8>, p2: Seq<u8>, p3: Seq<u8>, p4: Seq<u8>)
    requires
        s == p1 + p2 + p3 + p4,
    ensures
        s.len() == p1.len() + p2.len() + p3.len() + p4.len(),
        s.subrange(0, p1.len() as int) == p1,
        s.subrange(p1.len() as int, (p1.len() + p2.len()) as int) == p2,
        s.subrange((p1.len() + p2.len()) as int, (p1.len() + p2.len() + p3.len()) as int) == p3,
        s.subrange((p1.len() + p2.len() + p3.len()) as int, s.len() as int) == p4,
{
    assert(s.subrange(0, p1.len() as int) =~= p1);
    assert(s.subrange(p1.len() as int, (p1.len() + p2.len()) as int) =~= p2);
    assert(s.subrange((p1.len() + p2.len()) as int, (p1.len() + p2.len() + p3.len()) as int)
        =~= p3);
    assert(s.subrange((p1.len() + p2.len() + p3.len()) as int, s.len() as int) =~= p4);
}

/// A slot whose bit the mask does not raise consumes nothing.
proof fn lemma_slot_skip(b: Seq<u8>, addrs: u32, flags: u32, bit: u32, cur: int, acc: Route)
    requires
        bit < 8,
        (addrs >> bit) & 1 == 0,
    ensures
        parse_slots(b, addrs, flags, bit, cur, acc) == parse_slots(
            b,
            addrs,
            flags,
            (bit + 1) as u32,
            cur,
            acc,
        ),
{
}

/// Past the last bit, or past the end of the message, the walk yields
/// what it has.
proof fn lemma_slots_done(b: Seq<u8>, addrs: u32, flags: u32, bit: u32, cur: int, acc: Route)
    requires
        bit >= 8 || cur >= b.len(),
    ensures
        parse_slots(b, addrs, flags, bit, cur, acc) == Ok::<Route, RouteError>(acc),
{
}

/// The destination slot sets the destination and advances past its
/// structure.
proof fn lemma_slot_dst_step(b: Seq<u8>, addrs: u32, flags: u32, a: Addr, acc: Route)
    requires
        (addrs >> 0u32) & 1 == 1,
        92 + sa_addr_len(a) <= b.len(),
        b.subrange(92, 92 + sa_addr_len(a)) == sockaddr_addr_bytes(a),
    ensures
        parse_slots(b, addrs, flags, 0, 92, acc) == parse_slots(
            b,
            addrs,
            flags,
            1,
            92 + sa_addr_len(a),
            Route { destination: a, ..acc },
        ),
{
    lemma_read_sockaddr_addr(b, 92, a);
    assert(sa_advance(sa_addr_len(a)) == sa_addr_len(a));
    assert(slot_apply(b, 0, 92, sa_addr_len(a), flags, acc) == Route { destination: a, ..acc });
}

/// The gateway slot sets the gateway when the header flags mark the
/// route gateway-routed, and advances past its structure.
proof fn lemma_slot_gw_step(b: Seq<u8>, addrs: u32, flags: u32, cur: int, a: Addr, acc: Route)
    requires
        (addrs >> 1u32) & 1 == 1,
        0 <= cur,
        cur + sa_addr_len(a) <= b.len(),
        cur < b.len(),
        b.subrange(cur, cur + sa_addr_len(a)) == sockaddr_addr_bytes(a),
        flags & RTF_GATEWAY != 0,
    ensures
        parse_slots(b, addrs, flags, 1, cur, acc) == parse_slots(
            b,
            addrs,
            flags,
            2,
            cur + sa_addr_len(a),
            Route { gateway: Some(a), ..acc },
        ),
{
    lemma_read_sockaddr_addr(b, cur, a);
    assert(sa_advance(sa_addr_len(a)) == sa_addr_len(a));
    assert(slot_apply(b, 1, cur, sa_addr_len(a), flags, acc) == Route { gateway: Some(a), ..acc });
}

/// The netmask slot, read under the destination's family, restores the
/// prefix length the mask encodes, and advances past its structure.
proof fn lemma_slot_mask_step(b: Seq<u8>, addrs: u32, flags: u32, cur: int, m: Addr, acc: Route)
    requires
        (addrs >> 2u32) & 1 == 1,
        0 <= cur,
        cur + sa_addr_len(m) <= b.len(),
        cur < b.len(),
        b.subrange(cur, cur + sa_addr_len(m)) == sockaddr_addr_bytes(m),
        acc.destination is V4 <==> m is V4,
    ensures
        parse_slots(b, addrs, flags, 2, cur, acc) == parse_slots(
            b,
            addrs,
            flags,
            3,
            cur + sa_addr_len(m),
            Route { prefix: Route::prefix_of_mask(m), ..acc },
        ),
{
    lemma_read_sockaddr_addr(b, cur, m);
    assert(sa_advance(sa_addr_len(m)) == sa_addr_len(m));
    assert(slot_apply(b, 2, cur, sa_addr_len(m), flags, acc) == Route {
        prefix: Route::prefix_of_mask(m),
        ..acc
    });
}

/// The interface link slot restores the index it carries, and advances
/// past its structure.
proof fn lemma_slot_ifp_step(b: Seq<u8>, addrs: u32, flags: u32, cur: int, ix: u16, acc: Route)
    requires
        (addrs >> 4u32) & 1 == 1,
        0 <= cur,
        cur + 20 <= b.len(),
        cur < b.len(),
        b.subrange(cur, cur + 20) == sockaddr_dl_bytes(ix),
    ensures
        parse_slots(b, addrs, flags, 4, cur, acc) == parse_slots(
            b,
            addrs,
            flags,
            5,
            cur + 20,
            Route { ifindex: Some(ix as u32), ..acc },
        ),
{
    let s = b.subrange(cur, cur + 20);
    assert(b[cur] == s[0] && s[0] == 20);
    lemma_le16_roundtrip(ix);
    assert(sa_byte(b, cur, 20, 2) == s[2] && sa_byte(b, cur, 20, 3) == s[3]);
    assert(le16_val(sa_byte(b, cur, 20, 2), sa_byte(b, cur, 20, 3)) == ix);
    assert(sa_advance(20) == 20);
    assert(slot_apply(b, 4, cur, 20, flags, acc) == Route { ifindex: Some(ix as u32), ..acc });
}

/// Turning a route's prefix into its netmask and reading the mask back
/// restores the prefix.
proof fn lemma_prefix_mask_roundtrip(r: Route)
    requires
        r.wf(),
    ensures
        Route::prefix_of_mask(r.mask_spec()) == r.prefix,
{
    match r.destination {
        Addr::V4(_) => {
            crate::netmask::lemma_netmask_roundtrip_v4(r.prefix as u32);
        },
        Addr::V6(_) => {
            crate::netmask::lemma_netmask_roundtrip_v6(r.prefix as u32);
        },
    }
}

/// The slot walk over an encoded add request's address region restores
/// the route.
#[verifier::rlimit(100)]
#[verifier::spinoff_prover]
proof fn lemma_bsd_request_slots(b: Seq<u8>, r: Route)
    requires
        r.wf(),
        r.ifindex matches Some(ix) ==> ix <= 0xffff,
        b.len() == 92 + sa_addr_len(r.destination) + (match r.gateway {
            Some(g) => sa_addr_len(g),
            None => 0,
        }) + sa_addr_len(r.mask_spec()) + (if r.ifindex is Some {
            20int
        } else {
            0
        }),
        b.subrange(92, b.len() as int) == sockaddr_addr_bytes(r.destination) + (match r.gateway {
            Some(g) => sockaddr_addr_bytes(g),
            None => Seq::<u8>::empty(),
        }) + sockaddr_addr_bytes(r.mask_spec()) + (match r.ifindex {
            Some(ix) => sockaddr_dl_bytes(ix as u16),
            None => Seq::<u8>::empty(),
        }),
    ensures
        parse_slots(b, bsd_add_addrs(r), bsd_add_flags(r), 0, 92, Route::unspecified()) == Ok::<
            Route,
            RouteError,
        >(r),
{
    let dst_s = sockaddr_addr_bytes(r.destination);
    let gw_s = match r.gateway {
        Some(g) => sockaddr_addr_bytes(g),
        None => Seq::<u8>::empty(),
    };
    let mask_s = sockaddr_addr_bytes(r.mask_spec());
    let dl_s = match r.ifindex {
        Some(ix) => sockaddr_dl_bytes(ix as u16),
        None => Seq::<u8>::empty(),
    };
    let attrs = dst_s + gw_s + mask_s + dl_s;
    let flags = bsd_add_flags(r);
    let addrs = bsd_add_addrs(r);
    lemma_concat4_pieces(attrs, dst_s, gw_s, mask_s, dl_s);
    // which slot bits the request raises
    let g: u32 = if r.gateway is Some {
        1
    } else {
        0
    };
    let f: u32 = if r.ifindex is Some {
        1
    } else {
        0
    };
    assert(addrs == (5 + 2 * g + 0x10 * f) as u32);
    assert((addrs >> 0u32) & 1 == 1 && (addrs >> 1u32) & 1 == g && (addrs >> 2u32) & 1 == 1 && (
    addrs >> 3u32) & 1 == 0 && (addrs >> 4u32) & 1 == f && (addrs >> 5u32) & 1 == 0 && (addrs
        >> 6u32) & 1 == 0 && (addrs >> 7u32) & 1 == 0) by (bit_vector)
        requires
            addrs == (5 + 2 * g + 0x10 * f) as u32 && g <= 1 && f <= 1,
    ;
    assert(0x803u32 & RTF_GATEWAY != 0 && 0x801u32 & RTF_GATEWAY == 0) by (bit_vector);
    // the destination slot
    let acc0 = Route::unspecified();
    let dlen = sa_addr_len(r.destination);
    let c1 = 92 + dlen;
    lemma_attr_window(b, attrs, 0, dlen);
    let acc1 = Route { destination: r.destination, ..acc0 };
    lemma_slot_dst_step(b, addrs, flags, r.destination, acc0);
    // the gateway slot, when present
    let c2 = c1 + gw_s.len();
    let acc2 = match r.gateway {
        Some(gw) => Route { gateway: Some(gw), ..acc1 },
        None => acc1,
    };
    match r.gateway {
        Some(gw) => {
            lemma_attr_window(b, attrs, dlen, dlen + sa_addr_len(gw));
            lemma_slot_gw_step(b, addrs, flags, c1, gw, acc1);
        },
        None => {
            lemma_slot_skip(b, addrs, flags, 1, c1, acc1);
        },
    }
    // the netmask slot restores the prefix length
    let mlen = sa_addr_len(r.mask_spec());
    let c3 = c2 + mlen;
    lemma_attr_window(b, attrs, dlen + gw_s.len(), dlen + gw_s.len() + mlen);
    lemma_prefix_mask_roundtrip(r);
    let acc3 = Route { prefix: r.prefix, ..acc2 };
    lemma_slot_mask_step(b, addrs, flags, c2, r.mask_spec(), acc2);
    // nothing sits in the genmask slot
    lemma_slot_skip(b, addrs, flags, 3, c3, acc3);
    // the interface link slot, when present
    match r.ifindex {
        Some(ix) => {
            lemma_attr_window(b, attrs, attrs.len() - 20, attrs.len() as int);
            let acc4 = Route { ifindex: Some(ix), ..acc3 };
            lemma_slot_ifp_step(b, addrs, flags, c3, ix as u16, acc3);
            lemma_slots_done(b, addrs, flags, 5, c3 + 20, acc4);
            assert(acc4 == r);
        },
        None => {
            lemma_slots_done(b, addrs, flags, 4, c3, acc3);
            assert(acc3 == r);
        },
    }
}

/// Round trip of the routing-socket codec: decoding the codec's own add
/// request as if it were a route notification reproduces the route
/// exactly — the destination, the prefix length, the gateway and the
/// interface index.  The wire's interface-index field is sixteen bits
/// wide, so the index must fit in it.
#[verifier::rlimit(100)]
#[verifier::spinoff_prover]
pub proof fn lemma_bsd_add_roundtrip(r: Route)
    requires
        r.wf(),
        r.ifindex matches Some(ix) ==> ix <= 0xffff,
    ensures
        bsd_monitor_spec(bsd_add_request_bytes(r)) == Ok::<(RouteChange, Route), RouteError>(
            (RouteChange::ADD, r),
        ),
{
    let dst_s = sockaddr_addr_bytes(r.destination);
    let gw_s = match r.gateway {
        Some(g) => sockaddr_addr_bytes(g),
        None => Seq::<u8>::empty(),
    };
    let mask_s = sockaddr_addr_bytes(r.mask_spec());
    let dl_s = match r.ifindex {
        Some(ix) => sockaddr_dl_bytes(ix as u16),
        None => Seq::<u8>::empty(),
    };
    let attrs = dst_s + gw_s + mask_s + dl_s;
    let b = bsd_add_request_bytes(r);
    let msglen = (92 + attrs.len()) as u16;
    lemma_rt_header_reads(b, msglen, RTM_ADD, bsd_add_flags(r), bsd_add_addrs(r), 1, 0, attrs);
    assert(attrs.len() <= 104);
    lemma_bsd_request_slots(b, r);
    assert(route_change_of(b[3]) == RouteChange::ADD);
    assert(le16_val(b[0], b[1]) <= b.len());
}

} // verus!
