use routing::compaction::{
    from_edges, to_edges, u8_to_venue_type, venue_type_to_u8, CompactEdge, ExpandedEdge,
    VENUE_TYPE_AMM, VENUE_TYPE_BRIDGE, VENUE_TYPE_SDEX,
};

fn sdex_edge() -> ExpandedEdge {
    ExpandedEdge {
        from: "native".to_string(),
        to: "USDC:issuer".to_string(),
        venue_type: "sdex".to_string(),
        venue_ref: "sdex:1001".to_string(),
        liquidity: 10_000_000,
        price_bits: 0.1f64.to_bits(),
        fee_bps: 0,
    }
}

fn amm_edge() -> ExpandedEdge {
    ExpandedEdge {
        from: "native".to_string(),
        to: "USDC:issuer".to_string(),
        venue_type: "amm".to_string(),
        venue_ref: "CAMMPOOL1".to_string(),
        liquidity: 5_000_000,
        price_bits: 0.099f64.to_bits(),
        fee_bps: 30,
    }
}

fn bridge_edge() -> ExpandedEdge {
    ExpandedEdge {
        from: "USDC:issuer".to_string(),
        to: "USDC:eth_issuer".to_string(),
        venue_type: "bridge".to_string(),
        venue_ref: "bridge:cctp".to_string(),
        liquidity: 1_000_000_000,
        price_bits: 1.0f64.to_bits(),
        fee_bps: 10,
    }
}

fn same_edge(a: &ExpandedEdge, b: &ExpandedEdge) -> bool {
    a.from == b.from
        && a.to == b.to
        && a.venue_type == b.venue_type
        && a.venue_ref == b.venue_ref
        && a.liquidity == b.liquidity
        && a.price_bits == b.price_bits
        && a.fee_bps == b.fee_bps
}

#[test]
fn test_sdex_round_trip() {
    let original = vec![sdex_edge()];
    let compact = from_edges(&original);
    let expanded = to_edges(&compact);

    assert_eq!(expanded.len(), 1);
    assert_eq!(expanded[0].venue_type, "sdex");
    assert_eq!(expanded[0].from, original[0].from);
    assert_eq!(expanded[0].to, original[0].to);
    assert_eq!(expanded[0].liquidity, original[0].liquidity);
}

#[test]
fn test_amm_round_trip() {
    let original = vec![amm_edge()];
    let compact = from_edges(&original);
    let expanded = to_edges(&compact);

    assert_eq!(expanded.len(), 1);
    assert_eq!(expanded[0].venue_type, "amm");
    assert_eq!(expanded[0].fee_bps, 30);
}

#[test]
fn test_bridge_round_trip() {
    let original = vec![bridge_edge()];
    let compact = from_edges(&original);
    let expanded = to_edges(&compact);

    assert_eq!(expanded.len(), 1);
    assert_eq!(expanded[0].venue_type, "bridge");
    assert_eq!(expanded[0].venue_ref, "bridge:cctp");
}

#[test]
fn test_bridge_not_laundered_to_sdex() {
    let original = vec![bridge_edge()];
    let compact = from_edges(&original);

    assert_eq!(compact[0].venue_type, VENUE_TYPE_BRIDGE);

    let expanded = to_edges(&compact);
    assert_eq!(expanded[0].venue_type, "bridge");
    assert_ne!(expanded[0].venue_type, "sdex");
    assert_ne!(expanded[0].venue_type, "amm");
}

#[test]
fn test_bridge_not_laundered_to_amm() {
    let original = vec![bridge_edge()];
    let compact = from_edges(&original);
    let expanded = to_edges(&compact);

    assert_eq!(expanded[0].venue_type, "bridge");
    assert_ne!(expanded[0].venue_type, "amm");
}

#[test]
fn test_mixed_venue_types_round_trip() {
    let original = vec![sdex_edge(), amm_edge(), bridge_edge()];
    let compact = from_edges(&original);
    let expanded = to_edges(&compact);

    assert_eq!(expanded.len(), 3);
    assert_eq!(expanded[0].venue_type, "sdex");
    assert_eq!(expanded[1].venue_type, "amm");
    assert_eq!(expanded[2].venue_type, "bridge");
}

#[test]
fn test_price_precision_lossy() {
    let original = vec![ExpandedEdge {
        from: "native".to_string(),
        to: "USDC:issuer".to_string(),
        venue_type: "sdex".to_string(),
        venue_ref: "sdex:1001".to_string(),
        liquidity: 10_000_000,
        price_bits: 0.123456789f64.to_bits(),
        fee_bps: 0,
    }];

    let compact = from_edges(&original);
    let expanded = to_edges(&compact);

    assert!((f64::from_bits(expanded[0].price_bits) - 0.123456789).abs() < 1e-10);
}

#[test]
fn test_venue_type_conversion() {
    assert_eq!(venue_type_to_u8("sdex"), Some(VENUE_TYPE_SDEX));
    assert_eq!(venue_type_to_u8("amm"), Some(VENUE_TYPE_AMM));
    assert_eq!(venue_type_to_u8("bridge"), Some(VENUE_TYPE_BRIDGE));
    assert_eq!(venue_type_to_u8("invalid"), None);

    assert_eq!(u8_to_venue_type(VENUE_TYPE_SDEX), Some("sdex"));
    assert_eq!(u8_to_venue_type(VENUE_TYPE_AMM), Some("amm"));
    assert_eq!(u8_to_venue_type(VENUE_TYPE_BRIDGE), Some("bridge"));
    assert_eq!(u8_to_venue_type(99), None);
}

#[test]
fn test_empty_edges() {
    let original: Vec<ExpandedEdge> = vec![];
    let compact = from_edges(&original);
    let expanded = to_edges(&compact);

    assert!(compact.is_empty());
    assert!(expanded.is_empty());
}

#[test]
fn venue_type_names_are_case_sensitive_and_exact() {
    assert_eq!(venue_type_to_u8("SDEX"), None);
    assert_eq!(venue_type_to_u8("sdex "), None);
    assert_eq!(venue_type_to_u8(""), None);
    assert_eq!(venue_type_to_u8("bridg"), None);
    assert_eq!(venue_type_to_u8("bridges"), None);
    assert_eq!(u8_to_venue_type(3), None);
    assert_eq!(u8_to_venue_type(255), None);
}

#[test]
fn venue_codes_round_trip_through_names() {
    for code in 0u8..=255 {
        match u8_to_venue_type(code) {
            Some(name) => assert_eq!(venue_type_to_u8(name), Some(code)),
            None => assert!(code > VENUE_TYPE_BRIDGE),
        }
    }
}

#[test]
fn unknown_venue_types_are_dropped_in_order() {
    let mut unknown = amm_edge();
    unknown.venue_type = "orderbook".to_string();
    let original = vec![bridge_edge(), unknown, sdex_edge()];
    let compact = from_edges(&original);

    assert_eq!(compact.len(), 2);
    assert_eq!(compact[0].venue_type, VENUE_TYPE_BRIDGE);
    assert_eq!(compact[0].venue_ref, "bridge:cctp");
    assert_eq!(compact[1].venue_type, VENUE_TYPE_SDEX);
    assert_eq!(compact[1].venue_ref, "sdex:1001");
}

#[test]
fn unknown_venue_codes_are_dropped_in_order() {
    let compact = vec![
        CompactEdge {
            from: "a".to_string(),
            to: "b".to_string(),
            venue_type: 7,
            venue_ref: "x".to_string(),
            liquidity: -5,
            price_bits: 42,
            fee_bps: 1,
        },
        CompactEdge {
            from: "c".to_string(),
            to: "d".to_string(),
            venue_type: VENUE_TYPE_AMM,
            venue_ref: "pool".to_string(),
            liquidity: -5,
            price_bits: 42,
            fee_bps: 65535,
        },
    ];
    let expanded = to_edges(&compact);

    assert_eq!(expanded.len(), 1);
    assert_eq!(expanded[0].from, "c");
    assert_eq!(expanded[0].to, "d");
    assert_eq!(expanded[0].venue_type, "amm");
    assert_eq!(expanded[0].venue_ref, "pool");
    assert_eq!(expanded[0].liquidity, -5);
    assert_eq!(expanded[0].price_bits, 42);
    assert_eq!(expanded[0].fee_bps, 65535);
}

#[test]
fn expanded_round_trip_is_lossless() {
    let original = vec![sdex_edge(), amm_edge(), bridge_edge(), bridge_edge()];
    let expanded = to_edges(&from_edges(&original));

    assert_eq!(expanded.len(), original.len());
    for (a, b) in expanded.iter().zip(original.iter()) {
        assert!(same_edge(a, b));
    }
}

#[test]
fn compact_round_trip_is_lossless() {
    let compact = from_edges(&vec![amm_edge(), bridge_edge(), sdex_edge()]);
    let again = from_edges(&to_edges(&compact));

    assert_eq!(again.len(), compact.len());
    for (a, b) in again.iter().zip(compact.iter()) {
        assert_eq!(a.from, b.from);
        assert_eq!(a.to, b.to);
        assert_eq!(a.venue_type, b.venue_type);
        assert_eq!(a.venue_ref, b.venue_ref);
        assert_eq!(a.liquidity, b.liquidity);
        assert_eq!(a.price_bits, b.price_bits);
        assert_eq!(a.fee_bps, b.fee_bps);
    }
}

#[test]
fn compaction_keeps_every_field() {
    let compact = from_edges(&vec![amm_edge()]);

    assert_eq!(compact.len(), 1);
    assert_eq!(compact[0].from, "native");
    assert_eq!(compact[0].to, "USDC:issuer");
    assert_eq!(compact[0].venue_type, VENUE_TYPE_AMM);
    assert_eq!(compact[0].venue_ref, "CAMMPOOL1");
    assert_eq!(compact[0].liquidity, 5_000_000);
    assert_eq!(compact[0].price_bits, 0.099f64.to_bits());
    assert_eq!(compact[0].fee_bps, 30);
}

#[test]
fn oversized_fee_is_left_out_not_altered() {
    let mut edge = sdex_edge();
    edge.fee_bps = 70_000;
    let original = vec![amm_edge(), edge, bridge_edge()];
    let compact = from_edges(&original);

    assert_eq!(compact.len(), 2);
    assert_eq!(compact[0].venue_type, VENUE_TYPE_AMM);
    assert_eq!(compact[1].venue_type, VENUE_TYPE_BRIDGE);
    let expanded = to_edges(&compact);
    assert_eq!(expanded.len(), 2);
    assert!(same_edge(&expanded[0], &original[0]));
    assert!(same_edge(&expanded[1], &original[2]));
}

#[test]
fn largest_fitting_fee_is_kept() {
    let mut edge = bridge_edge();
    edge.fee_bps = 65_535;
    let compact = from_edges(&vec![edge.clone()]);

    assert_eq!(compact.len(), 1);
    assert_eq!(compact[0].fee_bps, 65_535);
    let expanded = to_edges(&compact);
    assert!(same_edge(&expanded[0], &edge));

    edge.fee_bps = 65_536;
    assert!(from_edges(&vec![edge]).is_empty());
}

#[test]
fn non_ascii_venue_types_are_refused() {
    assert_eq!(venue_type_to_u8("sd\u{e9}x"), None);
    assert_eq!(venue_type_to_u8("\u{df}ridge"), None);
}
