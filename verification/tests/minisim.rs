use cachemrc::evict_policy::{FifoPolicy, LruPolicy};
use cachemrc::minisim::{
    corrected_ratio, product_at_least, raw_ratio, CurvePoint, MiniSim, Ratio,
};
use cachemrc::shards::ShardsFixedRate;
use cachemrc::{AccessRecord, NUM_CACHE_SIZE};

fn access(key: u64, size: u32) -> AccessRecord {
    AccessRecord { timestamp: 0, command: 0, key, size, ttl: 0 }
}

fn share(numerator: u128, denominator: u128) -> Ratio {
    Ratio { numerator, numerator_factor: 1, denominator, denominator_factor: 1 }
}

fn one() -> Ratio {
    share(1, 1)
}

fn point(capacity: u64, miss_numerator: u128, miss_denominator: u128) -> CurvePoint {
    CurvePoint { capacity, miss_ratio: share(miss_numerator, miss_denominator) }
}

fn top(r: Ratio) -> u128 {
    r.numerator * r.numerator_factor as u128
}

fn bottom(r: Ratio) -> u128 {
    r.denominator * r.denominator_factor as u128
}

#[test]
fn number_of_caches_is_one_hundred() {
    assert_eq!(NUM_CACHE_SIZE, 100);
}

#[test]
fn end_to_end_fifty_keys_a_thousand_accesses() {
    let mut sim = MiniSim::<LruPolicy, ShardsFixedRate>::new(10_000, None);
    let mut n: u64 = 0;
    while n < 1000 {
        sim.handle(&access(n % 50, 1));
        n += 1;
    }
    let curve = sim.curve();
    assert_eq!(curve.len(), 100);
    let mut i = 0;
    while i < curve.len() {
        // Every cache holds all fifty keys, so each misses the first access
        // to each key and nothing else.
        assert_eq!(curve[i], point((i as u64 + 1) * 100, 50, 1000));
        if i > 0 {
            let a = curve[i - 1].miss_ratio;
            let b = curve[i].miss_ratio;
            assert!(top(b) * bottom(a) <= top(a) * bottom(b));
        }
        i += 1;
    }
}

#[test]
fn curve_without_accesses_reports_one_everywhere() {
    let sim = MiniSim::<LruPolicy, ShardsFixedRate>::new(10_000, None);
    let curve = sim.curve();
    assert_eq!(curve.len(), 100);
    for p in curve.iter() {
        assert_eq!(p.miss_ratio, one());
    }
    let sampled = MiniSim::<FifoPolicy, ShardsFixedRate>::new(10_000, Some(ShardsFixedRate::new(500)));
    for p in sampled.curve().iter() {
        assert_eq!(p.miss_ratio, one());
    }
}

#[test]
fn accesses_the_sampler_passes_over_leave_no_trace() {
    let mut sim =
        MiniSim::<FifoPolicy, ShardsFixedRate>::new(10_000, Some(ShardsFixedRate::new(500)));
    // Keys 1 and 42 fall in slots 666 and 944.
    sim.handle(&access(1, 10));
    sim.handle(&access(42, 10));
    sim.handle(&access(1, 10));
    for p in sim.curve().iter() {
        assert_eq!(p.miss_ratio, one());
    }
}

#[test]
fn reported_capacities_do_not_depend_on_the_sampler() {
    let plain = MiniSim::<FifoPolicy, ShardsFixedRate>::new(12_345, None);
    let sampled =
        MiniSim::<FifoPolicy, ShardsFixedRate>::new(12_345, Some(ShardsFixedRate::new(100)));
    let a = plain.curve();
    let b = sampled.curve();
    assert_eq!(a.len(), b.len());
    let mut i = 0;
    while i < a.len() {
        assert_eq!(a[i].capacity, (i as u64 + 1) * 123);
        assert_eq!(a[i].capacity, b[i].capacity);
        if i > 0 {
            assert!(a[i - 1].capacity < a[i].capacity);
        }
        i += 1;
    }
}

#[test]
fn caches_simulate_one_step_above_what_is_reported() {
    // Two caches of 200 and 300 bytes, reported as 100 and 200.
    let mut sim = MiniSim::<LruPolicy, ShardsFixedRate>::with_num_caches(200, 2, None);
    sim.handle(&access(1, 150));
    sim.handle(&access(2, 150));
    sim.handle(&access(1, 150));
    sim.handle(&access(2, 150));
    let curve = sim.curve();
    assert_eq!(curve, vec![point(100, 4, 4), point(200, 2, 4)]);
}

#[test]
fn lru_and_fifo_differ_where_recency_matters() {
    let trace = [1u64, 2, 1, 3, 1];
    let mut lru = MiniSim::<LruPolicy, ShardsFixedRate>::with_num_caches(400, 2, None);
    let mut fifo = MiniSim::<FifoPolicy, ShardsFixedRate>::with_num_caches(400, 2, None);
    for key in trace.iter() {
        lru.handle(&access(*key, 150));
        fifo.handle(&access(*key, 150));
    }
    // The caches hold two and four objects.
    assert_eq!(lru.curve(), vec![point(200, 3, 5), point(400, 3, 5)]);
    assert_eq!(fifo.curve(), vec![point(200, 4, 5), point(400, 3, 5)]);
}

#[test]
fn size_zero_counts_as_one() {
    // One cache of 102 bytes: 102 objects of size zero fill it as objects of
    // size one would.
    let mut sim = MiniSim::<FifoPolicy, ShardsFixedRate>::with_num_caches(51, 1, None);
    let mut key: u64 = 0;
    while key < 103 {
        sim.handle(&access(key, 0));
        key += 1;
    }
    // Key 0 had to leave for key 102; key 1 is still there.
    sim.handle(&access(1, 0));
    sim.handle(&access(0, 0));
    assert_eq!(sim.curve(), vec![point(51, 104, 105)]);
}

#[test]
fn full_rate_reports_the_raw_ratio() {
    let mut plain = MiniSim::<LruPolicy, ShardsFixedRate>::with_num_caches(400, 2, None);
    let mut sampled = MiniSim::<LruPolicy, ShardsFixedRate>::with_num_caches(
        400,
        2,
        Some(ShardsFixedRate::new(1000)),
    );
    for key in [1u64, 2, 1, 3, 1, 2, 2, 4].iter() {
        plain.handle(&access(*key, 150));
        sampled.handle(&access(*key, 150));
    }
    let a = plain.curve();
    let b = sampled.curve();
    assert_eq!(a.len(), 2);
    let mut i = 0;
    while i < a.len() {
        assert_eq!(a[i].capacity, b[i].capacity);
        assert_eq!(
            top(a[i].miss_ratio) * bottom(b[i].miss_ratio),
            top(b[i].miss_ratio) * bottom(a[i].miss_ratio)
        );
        i += 1;
    }
    assert_eq!(a[0].miss_ratio, share(5, 8));
    // Five misses times eight sampled times 1000, over 1000 times eight
    // shown times eight accesses.
    assert_eq!(
        b[0].miss_ratio,
        Ratio { numerator: 40, numerator_factor: 1000, denominator: 8000, denominator_factor: 8 }
    );
}

#[test]
fn sampled_run_shrinks_the_caches_and_corrects_the_ratio() {
    // Threshold 500 observes keys 5 and 7 (slots 251 and 202) and passes
    // over keys 1 and 42. One cache of 2000 bytes shrinks to 1000.
    let mut sim = MiniSim::<FifoPolicy, ShardsFixedRate>::with_num_caches(
        1000,
        1,
        Some(ShardsFixedRate::new(500)),
    );
    sim.handle(&access(5, 600));
    sim.handle(&access(1, 600));
    sim.handle(&access(7, 600));
    sim.handle(&access(42, 600));
    sim.handle(&access(5, 600));
    sim.handle(&access(7, 600));
    // Observed: 5 miss, 7 miss (5 leaves), 5 miss (7 leaves), 7 miss: four
    // of four missed. Sampled 4, expected 6 * 500 / 1000 = 3: the product is
    // above one and is cut off.
    assert_eq!(sim.curve(), vec![CurvePoint { capacity: 1000, miss_ratio: one() }]);
    let mut roomy = MiniSim::<FifoPolicy, ShardsFixedRate>::with_num_caches(
        2000,
        1,
        Some(ShardsFixedRate::new(500)),
    );
    for key in [5u64, 1, 7, 42, 5, 7, 1, 1, 1, 1].iter() {
        roomy.handle(&access(*key, 600));
    }
    // Observed: two misses and two hits of four. Sampled 4, shown 10:
    // 2 * 4 * 1000 over 500 * 10 * 4, which is two fifths.
    assert_eq!(
        roomy.curve(),
        vec![CurvePoint {
            capacity: 2000,
            miss_ratio: Ratio {
                numerator: 8,
                numerator_factor: 1000,
                denominator: 5000,
                denominator_factor: 4
            }
        }]
    );
}

#[test]
fn expected_count_is_not_rounded_in_the_correction() {
    // Threshold 500 observes keys 5 and 7 and passes over key 1. The cache
    // holds both observed keys.
    let mut sim = MiniSim::<FifoPolicy, ShardsFixedRate>::with_num_caches(
        2000,
        1,
        Some(ShardsFixedRate::new(500)),
    );
    sim.handle(&access(5, 600));
    sim.handle(&access(1, 600));
    sim.handle(&access(5, 600));
    // Two observed, one of them a hit; sampled 2, shown 3, expected one and
    // a half: a half times two over one and a half is two thirds.
    let curve = sim.curve();
    assert_eq!(
        curve[0].miss_ratio,
        Ratio { numerator: 2, numerator_factor: 1000, denominator: 1500, denominator_factor: 2 }
    );
    assert_eq!(top(curve[0].miss_ratio) * 3, bottom(curve[0].miss_ratio) * 2);
}

#[test]
fn config_ok_wants_every_capacity_above_one_hundred() {
    assert!(!MiniSim::<FifoPolicy, ShardsFixedRate>::config_ok(5_000, 100, &None));
    assert!(!MiniSim::<FifoPolicy, ShardsFixedRate>::config_ok(5_099, 100, &None));
    assert!(MiniSim::<FifoPolicy, ShardsFixedRate>::config_ok(5_100, 100, &None));
    assert!(MiniSim::<LruPolicy, ShardsFixedRate>::config_ok(5_100, 100, &None));
    assert!(!MiniSim::<FifoPolicy, ShardsFixedRate>::config_ok(5_100, 0, &None));
    assert!(MiniSim::<FifoPolicy, ShardsFixedRate>::config_ok(51, 1, &None));
    assert!(!MiniSim::<FifoPolicy, ShardsFixedRate>::config_ok(u64::MAX, 1, &None));
    assert!(!MiniSim::<FifoPolicy, ShardsFixedRate>::config_ok(u64::MAX / 2, 1, &None));
}

#[test]
fn config_ok_asks_the_policy_about_the_shrunk_capacities() {
    // At rate one thousandth the smallest caches shrink to nothing, which
    // only the queue-based policy can be made with.
    let sampler = Some(ShardsFixedRate::new(1));
    assert!(MiniSim::<FifoPolicy, ShardsFixedRate>::config_ok(10_000, 100, &sampler));
    assert!(!MiniSim::<LruPolicy, ShardsFixedRate>::config_ok(10_000, 100, &sampler));
    assert!(MiniSim::<LruPolicy, ShardsFixedRate>::config_ok(1_000_000, 100, &sampler));
}

#[test]
fn config_ok_refuses_a_rate_above_one() {
    assert!(MiniSim::<FifoPolicy, ShardsFixedRate>::config_ok(
        10_000,
        100,
        &Some(ShardsFixedRate::new(1000))
    ));
    assert!(!MiniSim::<FifoPolicy, ShardsFixedRate>::config_ok(
        10_000,
        100,
        &Some(ShardsFixedRate::new(1001))
    ));
    assert!(!MiniSim::<LruPolicy, ShardsFixedRate>::config_ok(
        10_000,
        100,
        &Some(ShardsFixedRate::new(2000))
    ));
}

#[test]
fn raw_ratio_is_misses_over_accesses() {
    assert_eq!(raw_ratio(0, 0), one());
    assert_eq!(raw_ratio(0, 10), share(10, 10));
    assert_eq!(raw_ratio(3, 10), share(7, 10));
    assert_eq!(raw_ratio(10, 10), share(0, 10));
}

#[test]
fn corrected_ratio_scales_and_cuts_off_at_one() {
    // A half times ten over twenty.
    assert_eq!(
        corrected_ratio(5, 10, 10, (20_000, 1000)),
        Ratio { numerator: 50, numerator_factor: 1000, denominator: 20_000, denominator_factor: 10 }
    );
    // A half times two over one and a half.
    assert_eq!(
        corrected_ratio(1, 2, 2, (1500, 1000)),
        Ratio { numerator: 2, numerator_factor: 1000, denominator: 1500, denominator_factor: 2 }
    );
    assert_eq!(corrected_ratio(0, 10, 30, (10_000, 1000)), one());
    assert_eq!(corrected_ratio(5, 10, 20, (10_000, 1000)), one());
    assert_eq!(
        corrected_ratio(10, 10, 20, (10_000, 1000)),
        Ratio { numerator: 0, numerator_factor: 1000, denominator: 10_000, denominator_factor: 10 }
    );
    assert_eq!(corrected_ratio(0, 0, 0, (0, 1000)), one());
    assert_eq!(corrected_ratio(3, 10, 5, (0, 1000)), one());
    assert_eq!(corrected_ratio(10, 10, 5, (0, 1000)), one());
}

#[test]
fn corrected_ratio_holds_products_of_the_largest_counters() {
    let most = u64::MAX as u128;
    assert_eq!(
        corrected_ratio(0, u64::MAX, u64::MAX - 1, (most * 1000, 1000)),
        Ratio {
            numerator: most * (most - 1),
            numerator_factor: 1000,
            denominator: most * 1000,
            denominator_factor: u64::MAX
        }
    );
    assert_eq!(corrected_ratio(0, u64::MAX, u64::MAX, (most * 1000, 1000)), one());
}

#[test]
fn product_at_least_compares_beyond_128_bits() {
    let most = u128::MAX;
    assert!(product_at_least(3, 4, 2, 6));
    assert!(product_at_least(3, 4, 2, 5));
    assert!(!product_at_least(3, 4, 13, 1));
    assert!(product_at_least(most, u64::MAX, most, u64::MAX));
    assert!(product_at_least(most, u64::MAX, most - 1, u64::MAX));
    assert!(!product_at_least(most - 1, u64::MAX, most, u64::MAX));
    assert!(!product_at_least(most, u64::MAX - 1, most, u64::MAX));
    assert!(product_at_least(1 << 100, 1 << 40, 1 << 77, 1 << 63));
    assert!(!product_at_least(1 << 100, 1 << 39, 1 << 77, 1 << 63));
    assert!(product_at_least((1 << 100) + 1, 1 << 40, 1 << 77, 1 << 63));
    assert!(product_at_least(0, 0, 0, 5));
    assert!(!product_at_least(0, 9, 1, 1));
}
