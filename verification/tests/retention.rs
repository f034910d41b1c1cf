use positron::retention::{ids_to_evict_for_tier, RetentionTier, SnapshotEvictRow, SnapshotRecord};

const SEC: i64 = 1_000_000;
const MIN: i64 = 60 * SEC;
const HOUR: i64 = 60 * MIN;
const DAY: i64 = 24 * HOUR;

/// 2024-06-01T12:00:00Z in microseconds.
fn fixed_now() -> i64 {
    1_717_243_200 * SEC
}

fn snap(id: u128, note: u128, now: i64, age: i64) -> SnapshotRecord {
    SnapshotRecord { id, note, owner: 900, created_at: now - age }
}

fn ids(rows: &[SnapshotEvictRow]) -> Vec<u128> {
    rows.iter().map(|r| r.id).collect()
}

#[test]
fn all_lists_tiers_from_newest_to_oldest() {
    assert_eq!(
        RetentionTier::all(),
        vec![
            RetentionTier::H2ToH4,
            RetentionTier::H4ToD1,
            RetentionTier::D1ToD3,
            RetentionTier::D3ToW1,
            RetentionTier::W1ToD30,
            RetentionTier::D30ToY1,
            RetentionTier::Y1Plus,
        ]
    );
}

#[test]
fn bucket_widths() {
    assert_eq!(RetentionTier::H2ToH4.bucket_secs(), 1800);
    assert_eq!(RetentionTier::H4ToD1.bucket_secs(), 3600);
    assert_eq!(RetentionTier::D1ToD3.bucket_secs(), 21_600);
    assert_eq!(RetentionTier::D3ToW1.bucket_secs(), 86_400);
}

#[test]
fn tier_windows() {
    let now = fixed_now();
    assert_eq!(RetentionTier::H2ToH4.newest_inclusive(now), now - 2 * HOUR);
    assert_eq!(RetentionTier::H2ToH4.oldest_exclusive(now), Some(now - 4 * HOUR));
    assert_eq!(RetentionTier::H4ToD1.newest_inclusive(now), now - 4 * HOUR);
    assert_eq!(RetentionTier::Y1Plus.oldest_exclusive(now), None);
}

fn evict(snaps: &[SnapshotRecord], tier: RetentionTier, now: i64) -> Vec<u128> {
    ids(&ids_to_evict_for_tier(&snaps.to_vec(), tier, now))
}

fn evict_all_tiers(snaps: &[SnapshotRecord], now: i64) -> Vec<u128> {
    let mut out = Vec::new();
    for tier in RetentionTier::all() {
        out.extend(evict(snaps, tier, now));
    }
    out.sort();
    out
}

#[test]
fn ids_to_evict_h2_to_h4_thins_to_one_per_thirty_minutes() {
    let now = fixed_now();
    // 09:40Z and 09:55Z share the half-hour bucket
    let snaps = [snap(1, 10, now, 2 * HOUR + 20 * MIN), snap(2, 10, now, 2 * HOUR + 5 * MIN)];
    let evicted = ids_to_evict_for_tier(&snaps.to_vec(), RetentionTier::H2ToH4, now);
    assert_eq!(ids(&evicted), vec![1]);
    assert_eq!(evicted[0].owner, 900);
    assert_eq!(evicted[0].note, 10);
}

#[test]
fn ids_to_evict_h4_to_d1_thins_to_one_per_hour() {
    let now = fixed_now();
    let snaps = [snap(1, 10, now, 5 * HOUR), snap(2, 10, now, 4 * HOUR + 30 * MIN)];
    assert_eq!(evict(&snaps, RetentionTier::H4ToD1, now), vec![1]);
}

#[test]
fn ids_to_evict_d3_to_w1_thins_to_one_per_day() {
    let now = fixed_now();
    let snaps = [snap(1, 10, now, 4 * DAY), snap(2, 10, now, 4 * DAY - 30 * MIN)];
    assert_eq!(evict(&snaps, RetentionTier::D3ToW1, now), vec![1]);
}

#[test]
fn ids_to_evict_w1_to_d30_thins_to_one_per_week() {
    let now = fixed_now();
    let snaps = [snap(1, 10, now, 14 * DAY), snap(2, 10, now, 14 * DAY - HOUR)];
    assert_eq!(evict(&snaps, RetentionTier::W1ToD30, now), vec![1]);
}

#[test]
fn ids_to_evict_d30_to_y1_thins_to_one_per_thirty_days() {
    let now = fixed_now();
    let snaps = [snap(1, 10, now, 60 * DAY), snap(2, 10, now, 59 * DAY)];
    assert_eq!(evict(&snaps, RetentionTier::D30ToY1, now), vec![1]);
}

#[test]
fn ids_to_evict_y1_plus_thins_to_one_per_year() {
    let now = fixed_now();
    let snaps = [snap(1, 10, now, 400 * DAY), snap(2, 10, now, 399 * DAY)];
    assert_eq!(evict(&snaps, RetentionTier::Y1Plus, now), vec![1]);
}

#[test]
fn ids_to_evict_y1_plus_very_old_snapshots() {
    let now = fixed_now();
    let snaps = [snap(1, 10, now, 800 * DAY), snap(2, 10, now, 799 * DAY)];
    assert_eq!(evict(&snaps, RetentionTier::Y1Plus, now), vec![1]);
}

#[test]
fn ids_to_evict_d1_to_d3_six_hour_bucket() {
    let now = fixed_now();
    let snaps = [snap(1, 10, now, DAY + 3 * HOUR), snap(2, 10, now, DAY + HOUR)];
    assert_eq!(evict(&snaps, RetentionTier::D1ToD3, now), vec![1]);
}

#[test]
fn ids_to_evict_three_in_same_bucket_keeps_newest_only() {
    let now = fixed_now();
    let offset = 2 * HOUR + 15 * MIN;
    let snaps = [
        snap(1, 10, now, offset),
        snap(2, 10, now, offset + 5 * MIN),
        snap(3, 10, now, offset + 10 * MIN),
    ];
    let mut evicted = evict(&snaps, RetentionTier::H2ToH4, now);
    evicted.sort();
    assert_eq!(evicted, vec![2, 3]);
}

#[test]
fn ids_to_evict_identical_created_at_evicts_lower_id() {
    let now = fixed_now();
    let age = 2 * HOUR + 15 * MIN;
    let snaps = [snap(8, 10, now, age), snap(5, 10, now, age)];
    assert_eq!(evict(&snaps, RetentionTier::H2ToH4, now), vec![5]);
}

#[test]
fn ids_to_evict_partitions_by_note() {
    let now = fixed_now();
    let offset = 2 * HOUR + 15 * MIN;
    let snaps = [
        snap(1, 10, now, offset),
        snap(2, 10, now, 2 * HOUR + 5 * MIN),
        snap(3, 11, now, offset),
        snap(4, 11, now, 2 * HOUR + 5 * MIN),
    ];
    let mut evicted = evict(&snaps, RetentionTier::H2ToH4, now);
    evicted.sort();
    assert_eq!(evicted, vec![1, 3]);
}

#[test]
fn ids_to_evict_keeps_snapshots_in_different_buckets_within_tier() {
    let now = fixed_now();
    let snaps = [snap(1, 10, now, 2 * HOUR + 10 * MIN), snap(2, 10, now, 3 * HOUR + 30 * MIN)];
    assert!(evict(&snaps, RetentionTier::H2ToH4, now).is_empty());
}

#[test]
fn ids_to_evict_only_applies_to_matching_tier_range() {
    let now = fixed_now();
    let snaps = [snap(1, 10, now, 5 * HOUR)];
    assert!(evict(&snaps, RetentionTier::H2ToH4, now).is_empty());
    assert!(evict(&snaps, RetentionTier::H4ToD1, now).is_empty());
}

#[test]
fn ids_to_evict_keeps_snapshots_under_two_hours() {
    let now = fixed_now();
    let snaps = [snap(1, 10, now, 90 * MIN)];
    for tier in RetentionTier::all() {
        assert!(evict(&snaps, tier, now).is_empty());
    }
}

#[test]
fn ids_to_evict_just_under_two_hours_never_evicted() {
    let now = fixed_now();
    let snaps = [snap(1, 10, now, 119 * MIN)];
    for tier in RetentionTier::all() {
        assert!(evict(&snaps, tier, now).is_empty());
    }
}

#[test]
fn ids_to_evict_excludes_snapshots_outside_tier_age_window() {
    let now = fixed_now();
    let snaps = [snap(1, 10, now, 90 * MIN), snap(2, 10, now, 5 * HOUR)];
    for tier in RetentionTier::all() {
        let evicted = evict(&snaps, tier, now);
        assert!(!evicted.contains(&1));
        if tier == RetentionTier::H2ToH4 {
            assert!(!evicted.contains(&2));
        }
    }
}

#[test]
fn ids_to_evict_tier_boundary_keeps_one_per_tier() {
    let now = fixed_now();
    let snaps = [snap(1, 10, now, 3 * HOUR + 50 * MIN), snap(2, 10, now, 4 * HOUR + 10 * MIN)];
    assert!(evict(&snaps, RetentionTier::H2ToH4, now).is_empty());
    assert!(evict(&snaps, RetentionTier::H4ToD1, now).is_empty());
}

#[test]
fn ids_to_evict_at_exact_tier_boundaries() {
    let now = fixed_now();
    let snaps = [snap(1, 10, now, 2 * HOUR), snap(2, 10, now, 4 * HOUR), snap(3, 10, now, DAY)];
    assert!(evict(&snaps, RetentionTier::H2ToH4, now).is_empty());
    assert!(evict(&snaps, RetentionTier::H4ToD1, now).is_empty());
    assert!(evict(&snaps, RetentionTier::D1ToD3, now).is_empty());
}

#[test]
fn ids_to_evict_at_remaining_tier_boundaries() {
    let now = fixed_now();
    let snaps = [
        snap(1, 10, now, 3 * DAY),
        snap(2, 10, now, 7 * DAY),
        snap(3, 10, now, 30 * DAY),
        snap(4, 10, now, 365 * DAY),
    ];
    for tier in RetentionTier::all() {
        assert!(evict(&snaps, tier, now).is_empty());
    }
}

#[test]
fn ids_to_evict_mixed_ages_only_thins_eligible_tiers() {
    let now = fixed_now();
    let snaps = [
        snap(1, 10, now, 30 * MIN),
        snap(2, 10, now, 2 * HOUR + 20 * MIN),
        snap(3, 10, now, 2 * HOUR + 5 * MIN),
        snap(4, 10, now, DAY + 3 * HOUR),
        snap(5, 10, now, DAY + HOUR),
    ];
    assert_eq!(evict_all_tiers(&snaps, now), vec![2, 4]);
}

#[test]
fn ids_to_evict_h4_tier_evicts_duplicate_at_five_hours() {
    let now = fixed_now();
    let snaps = [snap(1, 10, now, 5 * HOUR + 10 * MIN), snap(2, 10, now, 5 * HOUR + 40 * MIN)];
    assert!(evict(&snaps, RetentionTier::H2ToH4, now).is_empty());
    assert_eq!(evict(&snaps, RetentionTier::H4ToD1, now), vec![2]);
}

#[test]
fn evicted_rows_keep_input_order() {
    let now = fixed_now();
    let snaps = [
        snap(9, 11, now, 2 * HOUR + 20 * MIN),
        snap(1, 10, now, 2 * HOUR + 20 * MIN),
        snap(2, 10, now, 2 * HOUR + 5 * MIN),
        snap(3, 11, now, 2 * HOUR + 5 * MIN),
    ];
    assert_eq!(evict(&snaps, RetentionTier::H2ToH4, now), vec![9, 1]);
}

#[test]
fn a_second_pass_at_the_same_time_evicts_nothing() {
    let now = fixed_now();
    let snaps = vec![
        snap(1, 7, now, 3 * HOUR),
        snap(2, 7, now, 3 * HOUR + 5 * MIN),
        snap(3, 7, now, 3 * HOUR + 10 * MIN),
        snap(4, 8, now, 10 * DAY),
        snap(5, 8, now, 10 * DAY + 2 * HOUR),
        snap(6, 8, now, 90 * MIN),
    ];
    for tier in RetentionTier::all() {
        let evicted = evict(&snaps, tier, now);
        let kept: Vec<SnapshotRecord> =
            snaps.iter().filter(|s| !evicted.contains(&s.id)).cloned().collect();
        assert!(evict(&kept, tier, now).is_empty());
    }
    assert!(!evict_all_tiers(&snaps, now).contains(&6));
}
