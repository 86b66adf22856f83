//! Route selection over a set of candidates: the longest-prefix-match rule
//! applied to the frames of a routing-table dump.

use crate::netmask::{mask128, mask32};
use crate::netmask::{netmask_v4, netmask_v6};
use crate::{Addr, Route};
use vstd::prelude::*;

verus! {

/// The network `dest/prefix` contains `target`: the two addresses agree on
/// the prefix's leading bits.  Addresses of different families contain
/// nothing of each other, and a prefix wider than the family is taken as
/// matching nothing.
pub open spec fn addr_contains(dest: Addr, prefix: u8, target: Addr) -> bool {
    match (dest, target) {
        (Addr::V4(d), Addr::V4(t)) => prefix <= 32 && d & mask32(prefix as u32) == t & mask32(
            prefix as u32,
        ),
        (Addr::V6(d), Addr::V6(t)) => prefix <= 128 && d & mask128(prefix as u32) == t & mask128(
            prefix as u32,
        ),
        _ => false,
    }
}

/// Decides network containment.
pub fn route_contains(dest: &Addr, prefix: u8, target: &Addr) -> (r: bool)
    ensures
        r == addr_contains(*dest, prefix, *target),
{
    match (dest, target) {
        (Addr::V4(d), Addr::V4(t)) => {
            if prefix <= 32 {
                let m = netmask_v4(prefix);
                (*d & m) == (*t & m)
            } else {
                false
            }
        },
        (Addr::V6(d), Addr::V6(t)) => {
            if prefix <= 128 {
                let m = netmask_v6(prefix);
                (*d & m) == (*t & m)
            } else {
                false
            }
        },
        _ => false,
    }
}

/// A dump candidate survives the filter for a request when its prefix is
/// no more specific than the requested one and its network contains the
/// requested destination.
pub open spec fn candidate_matches(cand: Route, req: Route) -> bool {
    &&& cand.prefix <= req.prefix
    &&& addr_contains(cand.destination, cand.prefix, req.destination)
}

/// Decides whether a candidate survives the filter.
pub fn matches_request(cand: &Route, req: &Route) -> (r: bool)
    ensures
        r == candidate_matches(*cand, *req),
{
    cand.prefix <= req.prefix && route_contains(&cand.destination, cand.prefix, &req.destination)
}

/// One pass of the selection rule over the remaining candidates, carrying
/// the best candidate retained so far: a surviving candidate replaces the
/// best only with a strictly greater prefix length, so among equals the
/// first retained stays.
pub open spec fn select_from(cands: Seq<Route>, req: Route, best: Option<Route>) -> Option<Route>
    decreases cands.len(),
{
    if cands.len() == 0 {
        best
    } else {
        let c = cands[0];
        let keep_new = candidate_matches(c, req) && match best {
            None => true,
            Some(b) => c.prefix > b.prefix,
        };
        select_from(cands.skip(1), req, if keep_new {
            Some(c)
        } else {
            best
        })
    }
}

/// The selection rule over a whole candidate list: the first candidate of
/// greatest prefix length among those that match the request, if any
/// matches at all.
pub open spec fn select_spec(cands: Seq<Route>, req: Route) -> Option<Route> {
    select_from(cands, req, None)
}

/// Applies the longest-prefix-match selection rule to a candidate list.
pub fn select_route(cands: &Vec<Route>, req: &Route) -> (r: Option<Route>)
    ensures
        r == select_spec(cands@, *req),
{
    let mut best: Option<Route> = None;
    let mut i: usize = 0;
    proof {
        assert(cands@.skip(0) =~= cands@);
    }
    while i < cands.len()
        invariant
            i <= cands@.len(),
            select_from(cands@.skip(i as int), *req, best) == select_spec(cands@, *req),
        decreases cands@.len() - i,
    {
        let c = &cands[i];
        let keep_new = matches_request(c, req) && match &best {
            None => true,
            Some(b) => c.prefix > b.prefix,
        };
        proof {
            assert(cands@.skip(i as int).skip(1) =~= cands@.skip(i as int + 1));
        }
        if keep_new {
            best = Some(*c);
        }
        i = i + 1;
    }
    best
}

/// What the selection rule guarantees: a selected route is a matching
/// candidate of maximal prefix length, and nothing is selected only when
/// no candidate matches.
pub proof fn lemma_select_is_longest_match(cands: Seq<Route>, req: Route)
    ensures
        match select_spec(cands, req) {
            None => forall|i: int|
                0 <= i < cands.len() ==> !candidate_matches(#[trigger] cands[i], req),
            Some(r) => {
                &&& candidate_matches(r, req)
                &&& exists|i: int| 0 <= i < cands.len() && cands[i] == r
                &&& forall|i: int|
                    0 <= i < cands.len() && candidate_matches(#[trigger] cands[i], req)
                        ==> cands[i].prefix <= r.prefix
            },
        },
{
    lemma_select_from(cands, req, None);
}

/// The selection guarantee, generalised over the running best candidate.
proof fn lemma_select_from(cands: Seq<Route>, req: Route, best: Option<Route>)
    requires
        best matches Some(b) ==> candidate_matches(b, req),
    ensures
        select_from(cands, req, best) matches Some(r) ==> {
            &&& candidate_matches(r, req)
            &&& (Some(r) == best || exists|i: int| 0 <= i < cands.len() && cands[i] == r)
            &&& forall|i: int|
                0 <= i < cands.len() && candidate_matches(#[trigger] cands[i], req) ==> cands[
                    i
                ].prefix <= r.prefix
            &&& best matches Some(b) ==> b.prefix <= r.prefix
        },
        select_from(cands, req, best) is None ==> best is None && forall|i: int|
            0 <= i < cands.len() ==> !candidate_matches(#[trigger] cands[i], req),
    decreases cands.len(),
{
    if cands.len() == 0 {
    } else {
        let c = cands[0];
        let keep_new = candidate_matches(c, req) && match best {
            None => true,
            Some(b) => c.prefix > b.prefix,
        };
        let next = if keep_new {
            Some(c)
        } else {
            best
        };
        lemma_select_from(cands.skip(1), req, next);
        assert forall|i: int| 0 <= i < cands.len() implies cands[i] == if i == 0 {
            c
        } else {
            cands.skip(1)[i - 1]
        } by {
        }
    }
}

} // verus!
