use cachemrc::shards::{
    expected_of, scale_by_threshold, slot_below, Shards, ShardsFixedRate, MODULUS,
};

#[test]
fn modulus_is_one_thousand() {
    assert_eq!(MODULUS, 1000);
}

#[test]
fn slot_is_the_murmur3_hash_modulo_one_thousand() {
    let sampler = ShardsFixedRate::new(1000);
    assert_eq!(sampler.sample_key(0), Some(867));
    assert_eq!(sampler.sample_key(1), Some(666));
    assert_eq!(sampler.sample_key(5), Some(251));
    assert_eq!(sampler.sample_key(42), Some(944));
    assert_eq!(sampler.sample_key(123456789), Some(921));
    assert_eq!(sampler.sample_key(u64::MAX), Some(675));
}

#[test]
fn key_is_observed_only_below_the_threshold() {
    assert_eq!(ShardsFixedRate::new(251).sample_key(5), None);
    assert_eq!(ShardsFixedRate::new(252).sample_key(5), Some(251));
    assert_eq!(ShardsFixedRate::new(0).sample_key(5), None);
}

#[test]
fn sample_gives_one_key_one_answer() {
    let mut sampler = ShardsFixedRate::new(500);
    let first = sampler.sample(&5);
    let mut round = 0;
    while round < 50 {
        assert_eq!(sampler.sample(&5), first);
        round += 1;
    }
    assert!(first);
    let mut other = ShardsFixedRate::new(500);
    assert!(!other.sample(&1));
    assert!(!other.sample(&1));
}

#[test]
fn sample_counts_what_it_is_shown_and_what_it_observes() {
    let mut sampler = ShardsFixedRate::new(500);
    assert!(sampler.sample(&5));
    assert!(!sampler.sample(&1));
    assert!(!sampler.sample(&42));
    assert!(sampler.sample(&7));
    assert_eq!(sampler.get_sampled_count(), 2);
    // Four shown at rate one half: 500 * 4 over 1000.
    assert_eq!(sampler.get_expected_count(), (2000, 1000));
    assert_eq!(sampler.get_global_t(), 500);
}

#[test]
fn full_rate_observes_everything() {
    let mut sampler = ShardsFixedRate::new(1000);
    let mut key: u64 = 0;
    while key < 300 {
        assert!(sampler.sample(&key));
        key += 1;
    }
    assert_eq!(sampler.get_sampled_count(), 300);
    assert_eq!(sampler.get_expected_count(), (300_000, 1000));
}

#[test]
fn zero_threshold_observes_nothing() {
    let mut sampler = ShardsFixedRate::new(0);
    let mut key: u64 = 0;
    while key < 300 {
        assert!(!sampler.sample(&key));
        key += 1;
    }
    assert_eq!(sampler.get_sampled_count(), 0);
    assert_eq!(sampler.get_expected_count(), (0, 1000));
}

#[test]
fn new_sampler_has_seen_nothing() {
    let sampler = ShardsFixedRate::new(10);
    assert_eq!(sampler.get_global_t(), 10);
    assert_eq!(sampler.get_sampled_count(), 0);
    assert_eq!(sampler.get_expected_count(), (0, 1000));
    assert_eq!(sampler.get_rate(), (10, 1000));
}

#[test]
fn scale_multiplies_by_the_rate_and_rounds_down() {
    let sampler = ShardsFixedRate::new(570);
    assert_eq!(sampler.scale(100), 57);
    assert_eq!(sampler.scale(101), 57);
    assert_eq!(sampler.scale(1), 0);
    assert_eq!(sampler.scale(0), 0);
    assert_eq!(ShardsFixedRate::new(1).scale(999), 0);
    assert_eq!(ShardsFixedRate::new(1).scale(1000), 1);
    assert_eq!(ShardsFixedRate::new(1000).scale(u64::MAX), u64::MAX);
    assert_eq!(ShardsFixedRate::new(100).scale(u64::MAX), 1844674407370955161);
}

#[test]
fn scale_stops_at_the_largest_size() {
    assert_eq!(scale_by_threshold(u64::MAX, 2000), u64::MAX);
    assert_eq!(scale_by_threshold(10, 2000), 20);
    assert_eq!(scale_by_threshold(u64::MAX, u64::MAX), u64::MAX);
}

#[test]
fn expected_count_is_the_rate_times_what_was_shown() {
    let mut sampler = ShardsFixedRate::new(500);
    sampler.sample(&1);
    sampler.sample(&2);
    sampler.sample(&3);
    // Three shown at rate one half: one and a half, not rounded.
    assert_eq!(sampler.get_expected_count(), (1500, 1000));
    let mut quarter = ShardsFixedRate::new(250);
    let mut key: u64 = 0;
    while key < 10 {
        quarter.sample(&key);
        key += 1;
    }
    assert_eq!(quarter.get_expected_count(), (2500, 1000));
}

#[test]
fn expected_of_multiplies_without_loss() {
    assert_eq!(expected_of(0, 7), (0, 1000));
    assert_eq!(expected_of(3, 500), (1500, 1000));
    assert_eq!(
        expected_of(u64::MAX, u64::MAX),
        ((u64::MAX as u128) * (u64::MAX as u128), 1000)
    );
}

#[test]
fn slot_below_reduces_and_compares() {
    assert_eq!(slot_below(0, 1), Some(0));
    assert_eq!(slot_below(0, 0), None);
    assert_eq!(slot_below(1999, 1000), Some(999));
    assert_eq!(slot_below(1999, 999), None);
    assert_eq!(slot_below(5, 1000), Some(5));
    assert_eq!(slot_below(u128::MAX, 456), Some(455));
    assert_eq!(slot_below(u128::MAX, 455), None);
    assert_eq!(slot_below(81803616929829522406399855769982190666, 667), Some(666));
}

#[test]
fn create_shards_follows_the_threshold() {
    assert!(ShardsFixedRate::create_shards(None).is_none());
    let made = ShardsFixedRate::create_shards(Some(100));
    match made {
        Some(sampler) => {
            assert_eq!(sampler.get_global_t(), 100);
            assert_eq!(sampler.get_sampled_count(), 0);
        }
        None => panic!("a threshold makes a sampler"),
    }
}
