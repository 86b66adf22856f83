//! Tests for the shared data model: route construction, netmask
//! conversion, containment, selection and error classification.

use routex::netmask::{netmask_v4, netmask_v6, prefix_len_v4, prefix_len_v6};
use routex::select::{matches_request, route_contains, select_route};
use routex::{Addr, Route, RouteChange};

#[test]
fn route_builder_sets_fields() {
    let r = Route::new(Addr::V4(0x0a000000), 8).gateway(Addr::V4(0x0a000001)).ifindex(7);
    assert_eq!(r.destination, Addr::V4(0x0a000000));
    assert_eq!(r.prefix, 8);
    assert_eq!(r.gateway, Some(Addr::V4(0x0a000001)));
    assert_eq!(r.ifindex, Some(7));
}

#[test]
fn route_default_is_unspecified() {
    let r = Route::default();
    assert_eq!(r.destination, Addr::V4(0));
    assert_eq!(r.prefix, 0);
    assert_eq!(r.gateway, None);
    assert_eq!(r.ifindex, None);
}

#[test]
fn netmask_v4_known_values() {
    assert_eq!(netmask_v4(0), 0);
    assert_eq!(netmask_v4(8), 0xff00_0000);
    assert_eq!(netmask_v4(24), 0xffff_ff00);
    assert_eq!(netmask_v4(32), 0xffff_ffff);
}

#[test]
fn netmask_v6_known_values() {
    assert_eq!(netmask_v6(0), 0);
    assert_eq!(netmask_v6(64), 0xffff_ffff_ffff_ffff_0000_0000_0000_0000);
    assert_eq!(netmask_v6(128), u128::MAX);
}

#[test]
fn netmask_prefix_round_trip_v4_all() {
    for p in 0..=32u8 {
        assert_eq!(prefix_len_v4(netmask_v4(p)), p);
    }
}

#[test]
fn netmask_prefix_round_trip_v6_all() {
    for p in 0..=128u16 {
        assert_eq!(prefix_len_v6(netmask_v6(p as u8)), p as u8);
    }
}

#[test]
fn prefix_len_counts_leading_ones_only() {
    // a hole after the run of ones ends the count
    assert_eq!(prefix_len_v4(0xff7f_ffff), 8);
    assert_eq!(prefix_len_v6(0xffff_ffff_ffff_fffe_ffff_ffff_ffff_ffff), 63);
}

#[test]
fn contains_respects_prefix() {
    let net = Addr::V4(0x0a000000); // 10.0.0.0
    assert!(route_contains(&net, 8, &Addr::V4(0x0a010203)));
    assert!(!route_contains(&net, 16, &Addr::V4(0x0a010203)));
    assert!(route_contains(&net, 0, &Addr::V4(0xc0a80001)));
}

#[test]
fn contains_rejects_cross_family() {
    assert!(!route_contains(&Addr::V4(0), 0, &Addr::V6(0)));
    assert!(!route_contains(&Addr::V6(0), 0, &Addr::V4(0)));
}

#[test]
fn selection_picks_longest_matching_prefix() {
    // candidates 10.0.0.0/8, 10.1.0.0/16, 0.0.0.0/0; target 10.1.2.3/32
    let cands = vec![
        Route::new(Addr::V4(0x0a000000), 8),
        Route::new(Addr::V4(0x0a010000), 16),
        Route::new(Addr::V4(0), 0),
    ];
    let req = Route::new(Addr::V4(0x0a010203), 32);
    let picked = select_route(&cands, &req).unwrap();
    assert_eq!(picked, Route::new(Addr::V4(0x0a010000), 16));
}

#[test]
fn selection_ties_keep_the_first() {
    let a = Route::new(Addr::V4(0x0a000000), 8).ifindex(1);
    let b = Route::new(Addr::V4(0x0a000000), 8).ifindex(2);
    let req = Route::new(Addr::V4(0x0a010203), 32);
    assert_eq!(select_route(&vec![a, b], &req).unwrap(), a);
}

#[test]
fn selection_none_when_nothing_matches() {
    let cands = vec![Route::new(Addr::V4(0xc0a80000), 16)];
    let req = Route::new(Addr::V4(0x0a010203), 32);
    assert!(select_route(&cands, &req).is_none());
    assert!(select_route(&vec![], &req).is_none());
}

#[test]
fn selection_filters_more_specific_candidates() {
    // a /24 candidate may not answer a /16 request
    let cands = vec![Route::new(Addr::V4(0x0a010200), 24)];
    let req = Route::new(Addr::V4(0x0a010203), 16);
    assert!(!matches_request(&cands[0], &req));
    assert!(select_route(&cands, &req).is_none());
}

#[test]
fn route_change_classification() {
    assert_eq!(RouteChange::from(1), RouteChange::ADD);
    assert_eq!(RouteChange::from(2), RouteChange::DELETE);
    assert_eq!(RouteChange::from(3), RouteChange::CHANGE);
    assert_eq!(RouteChange::from(9), RouteChange::OTHER(9));
    assert_eq!(RouteChange::from(255), RouteChange::OTHER(255));
}

#[test]
fn route_mask_and_cidr_invert() {
    let mut r = Route::new(Addr::V4(0xc0000200), 24);
    let m = r.mask();
    assert_eq!(m, Addr::V4(0xffff_ff00));
    r.prefix = 0;
    r.cidr(m);
    assert_eq!(r.prefix, 24);

    let mut r6 = Route::new(Addr::V6(0x2001_0db8 << 96), 48);
    let m6 = r6.mask();
    r6.prefix = 0;
    r6.cidr(m6);
    assert_eq!(r6.prefix, 48);
}
