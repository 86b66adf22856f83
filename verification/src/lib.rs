//! Client-side model of the kernel's route-management channel.
//!
//! The crate holds the protocol codecs and the route-action decision logic
//! for two kernel interfaces: the netlink message-attribute protocol and the
//! BSD routing-socket protocol.  Everything here is pure computation on
//! plain values and byte buffers; opening the kernel socket and moving the
//! bytes is left to the caller.

use vstd::prelude::*;

pub mod bsd;
pub mod netlink;
pub mod netmask;
pub mod select;
pub mod wire;

verus! {

/// An IP address as a plain number: 32 bits for the v4 family,
/// 128 bits for the v6 family.  The numeric value carries the usual
/// big-endian reading of the address (`10.0.0.1` is `0x0a000001`).
#[derive(Clone, Copy, Debug, PartialEq, Eq, Structural)]
pub enum Addr {
    V4(u32),
    V6(u128),
}

impl Addr {
    /// Number of bits in the address family.
    pub open spec fn width(self) -> int {
        match self {
            Addr::V4(_) => 32,
            Addr::V6(_) => 128,
        }
    }

    /// Two addresses belong to the same family.
    pub open spec fn same_family(self, other: Addr) -> bool {
        match (self, other) {
            (Addr::V4(_), Addr::V4(_)) => true,
            (Addr::V6(_), Addr::V6(_)) => true,
            _ => false,
        }
    }

    /// True of the 32-bit family.
    pub fn is_v4(&self) -> (r: bool)
        ensures
            r == self is V4,
    {
        match self {
            Addr::V4(_) => true,
            Addr::V6(_) => false,
        }
    }
}

/// A routing-table entry: a destination network (address plus prefix
/// length), an optional next-hop gateway and an optional egress interface
/// index.
#[derive(Clone, Copy, Debug)]
pub struct Route {
    pub destination: Addr,
    pub prefix: u8,
    pub gateway: Option<Addr>,
    pub ifindex: Option<u32>,
}

impl Route {
    /// The structural invariant: the prefix length is bounded by the
    /// destination family's width, and a gateway, when present, belongs to
    /// the destination's family.
    pub open spec fn wf(self) -> bool {
        &&& self.prefix as int <= self.destination.width()
        &&& match self.gateway {
            Some(gw) => gw.same_family(self.destination),
            None => true,
        }
    }

    /// The all-zero v4 route: the record returned when a lookup matches
    /// nothing.
    pub open spec fn unspecified() -> Route {
        Route { destination: Addr::V4(0), prefix: 0, gateway: None, ifindex: None }
    }

    pub fn new(destination: Addr, prefix: u8) -> (r: Route)
        ensures
            r == (Route { destination, prefix, gateway: None, ifindex: None }),
    {
        Route { destination, prefix, gateway: None, ifindex: None }
    }

    pub fn gateway(self, gateway: Addr) -> (r: Route)
        ensures
            r == (Route { gateway: Some(gateway), ..self }),
    {
        Route { gateway: Some(gateway), ..self }
    }

    pub fn ifindex(self, ifindex: u32) -> (r: Route)
        ensures
            r == (Route { ifindex: Some(ifindex), ..self }),
    {
        Route { ifindex: Some(ifindex), ..self }
    }

    /// The netmask that encodes this route's prefix length, in the
    /// destination's family.
    pub open spec fn mask_spec(self) -> Addr {
        match self.destination {
            Addr::V4(_) => Addr::V4(netmask::mask32(self.prefix as u32)),
            Addr::V6(_) => Addr::V6(netmask::mask128(self.prefix as u32)),
        }
    }

    /// Builds the netmask address for this route's prefix length.
    pub fn mask(&self) -> (r: Addr)
        requires
            self.prefix as int <= self.destination.width(),
        ensures
            r == self.mask_spec(),
    {
        match self.destination {
            Addr::V4(_) => Addr::V4(netmask::netmask_v4(self.prefix)),
            Addr::V6(_) => Addr::V6(netmask::netmask_v6(self.prefix)),
        }
    }

    /// The prefix length a netmask address encodes: its count of leading
    /// one-bits, in the mask's own family.
    pub open spec fn prefix_of_mask(netmask: Addr) -> u8 {
        match netmask {
            Addr::V4(m) => vstd::std_specs::bits::u32_leading_ones(m) as u8,
            Addr::V6(m) => netmask::u128_leading_ones(m) as u8,
        }
    }

    /// Replaces this route's prefix length by the one the given netmask
    /// encodes.
    pub fn cidr(&mut self, netmask: Addr)
        ensures
            *final(self) == (Route { prefix: Route::prefix_of_mask(netmask), ..*old(self) }),
    {
        self.prefix = match netmask {
            Addr::V4(m) => netmask::prefix_len_v4(m),
            Addr::V6(m) => netmask::prefix_len_v6(m),
        };
    }
}

impl Default for Route {
    /// The default record is the unspecified v4 route.
    fn default() -> (r: Route)
        ensures
            r == Route::unspecified(),
            r.wf(),
    {
        Route { destination: Addr::V4(0), prefix: 0, gateway: None, ifindex: None }
    }
}

impl PartialEq for Route {
    fn eq(&self, other: &Route) -> (r: bool) {
        let gw_eq = match (self.gateway, other.gateway) {
            (None, None) => true,
            (Some(a), Some(b)) => a == b,
            _ => false,
        };
        let if_eq = match (self.ifindex, other.ifindex) {
            (None, None) => true,
            (Some(a), Some(b)) => a == b,
            _ => false,
        };
        self.destination == other.destination && self.prefix == other.prefix && gw_eq && if_eq
    }
}

impl vstd::std_specs::cmp::PartialEqSpecImpl for Route {
    open spec fn obeys_eq_spec() -> bool {
        true
    }

    open spec fn eq_spec(&self, other: &Route) -> bool {
        *self == *other
    }
}

impl Eq for Route {

}

/// Classification of a kernel-originated route event, derived from the
/// one-byte message-type code of the routing-socket protocol.
#[derive(Clone, Copy, Debug, PartialEq, Eq, Structural)]
#[allow(non_camel_case_types)]
pub enum RouteChange {
    ADD,
    DELETE,
    CHANGE,
    OTHER(u8),
}

/// What the one-byte event code of the routing-socket protocol classifies
/// to: the codes for "add", "delete" and "change" have named cases, and any
/// other code is carried through unchanged.
pub open spec fn route_change_of(value: u8) -> RouteChange {
    if value == 1 {
        RouteChange::ADD
    } else if value == 2 {
        RouteChange::DELETE
    } else if value == 3 {
        RouteChange::CHANGE
    } else {
        RouteChange::OTHER(value)
    }
}

impl From<u8> for RouteChange {
    fn from(value: u8) -> (r: RouteChange) {
        match value {
            1 => RouteChange::ADD,
            2 => RouteChange::DELETE,
            3 => RouteChange::CHANGE,
            _ => RouteChange::OTHER(value),
        }
    }
}

impl vstd::std_specs::convert::FromSpecImpl<u8> for RouteChange {
    open spec fn obeys_from_spec() -> bool {
        true
    }

    open spec fn from_spec(value: u8) -> RouteChange {
        route_change_of(value)
    }
}

/// Every way a route action can fail short of a socket-level I/O error:
/// the kernel's in-band error codes mapped to portable categories, and the
/// protocol errors raised while decoding a reply.
#[derive(Clone, Copy, Debug, PartialEq, Eq, Structural)]
pub enum RouteError {
    /// Kernel: the entry already exists.
    AlreadyExists,
    /// Kernel: no such entry (or process).
    NotFound,
    /// Kernel: no buffer space.
    OutOfMemory,
    /// Any other kernel-reported code, carried for diagnostics.
    Kernel(i32),
    /// The reply is shorter than the protocol's fixed header.
    Truncated,
    /// The reply's declared length exceeds what was read.
    LengthMismatch,
    /// The reply carries an unknown protocol version.
    VersionMismatch(u8),
    /// The reply is not of the expected message subtype.
    UnexpectedType(u16),
    /// A gateway attribute of the reply is of no known address family.
    InvalidGateway,
    /// The reply's attribute structure is inconsistent with its length.
    Malformed,
}

} // verus!
