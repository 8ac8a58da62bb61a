use std::cell::Cell;

use merutable::iceberg::head_discovery::{
    begin_search, discover_head, discover_head_from, HeadStep,
};
use merutable::types::error::MeruError;

#[test]
fn empty_catalog_returns_zero() {
    let head = discover_head(|_v: i64| Ok(false)).unwrap();
    assert_eq!(head, 0);
}

#[test]
fn genesis_only_returns_one() {
    assert_eq!(discover_head(|v: i64| Ok(v <= 1)).unwrap(), 1);
}

#[test]
fn probe_count_is_logarithmic() {
    let test_heads: &[i64] = &[7, 100, 1_000, 10_000, 1_000_000];
    for &head in test_heads {
        let calls = Cell::new(0usize);
        let found = discover_head(|v: i64| {
            calls.set(calls.get() + 1);
            Ok(v <= head)
        })
        .unwrap();
        assert_eq!(found, head, "discovery must return the true HEAD");
        let probes = calls.get();
        let log2 = 64 - (head as u64).leading_zeros() as usize;
        let bound = 2 * log2 + 4;
        assert!(
            probes <= bound,
            "probes {probes} exceeded bound {bound} for HEAD {head}"
        );
    }
}

#[test]
fn head_at_power_of_two() {
    for head in [1, 2, 4, 8, 16, 32, 64, 128, 256] {
        assert_eq!(discover_head(|v: i64| Ok(v <= head)).unwrap(), head);
    }
}

#[test]
fn head_near_power_of_two() {
    for head in [3, 5, 7, 15, 17, 63, 65, 1023, 1025] {
        assert_eq!(discover_head(|v: i64| Ok(v <= head)).unwrap(), head, "HEAD={head}");
    }
}

#[test]
fn transient_error_propagates() {
    let calls = Cell::new(0);
    let err = match discover_head(|_v: i64| {
        calls.set(calls.get() + 1);
        if calls.get() >= 3 {
            Err(MeruError::ObjectStore("flaky network".into()))
        } else {
            Ok(true)
        }
    }) {
        Err(e) => e,
        Ok(v) => panic!("expected error, got HEAD={v}"),
    };
    assert!(format!("{err:?}").contains("flaky network"));
}

#[test]
fn discovery_above_a_low_water_mark() {
    // Versions 8, 9 and 10 are left.
    let found = discover_head_from(8, |v: i64| Ok((8..=10).contains(&v))).unwrap();
    assert_eq!(found, 10);
    // The start itself is missing.
    assert_eq!(discover_head_from(20, |v: i64| Ok(v <= 10)).unwrap(), 0);
}

#[test]
fn a_missing_start_takes_one_probe() {
    // Later versions exist, but the start does not.
    let probes = Cell::new(0);
    let found = discover_head_from(4, |v: i64| {
        probes.set(probes.get() + 1);
        Ok(v != 4 && v <= 9)
    });
    assert_eq!((found.unwrap(), probes.get()), (0, 1));
}

#[test]
fn a_head_beyond_half_of_the_range_is_found_where_doubling_passes_it() {
    let head = (1i64 << 62) - 1;
    assert_eq!(discover_head(|v: i64| Ok(v <= head)).unwrap(), head);
    assert!(discover_head_from(head, |v: i64| Ok(v <= head)).is_err());
}

#[test]
fn no_probe_follows_an_error() {
    let probes = Cell::new(0);
    let err = discover_head(|v: i64| {
        probes.set(probes.get() + 1);
        if v < 4 { Ok(true) } else { Err(MeruError::ObjectStore("down".into())) }
    });
    assert!(matches!(err, Err(MeruError::ObjectStore(m)) if m == "down"));
    assert_eq!(probes.get(), 3);
}

#[test]
fn a_start_below_one_is_refused() {
    assert!(discover_head_from(0, |_v: i64| Ok(true)).is_err());
    assert!(begin_search(-3).is_err());
}

#[test]
fn the_search_can_be_stepped() {
    let head = 5;
    let mut search = begin_search(1).unwrap();
    let mut probes = Vec::new();
    let found = loop {
        let v = search.next_probe();
        probes.push(v);
        match search.answer(v <= head) {
            HeadStep::Probe(next) => search = next,
            HeadStep::Found(h) => break h,
            HeadStep::Failed(e) => panic!("search failed: {e:?}"),
        }
    };
    assert_eq!(found, head);
    assert_eq!(probes, vec![1, 2, 4, 8, 6, 5]);
}

#[test]
fn an_endless_store_is_an_error() {
    assert!(discover_head(|_v: i64| Ok(true)).is_err());
}
