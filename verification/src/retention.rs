use vstd::prelude::*;

verus! {

/// Microseconds in one second; snapshot times are counted in microseconds
/// since the Unix epoch.
pub const MICROS_PER_SEC: i64 = 1_000_000;

/// The age bands in which old note snapshots are thinned out. Within a band
/// only the newest snapshot of each note per bucket of time is kept.
#[derive(Debug, Clone, Copy, PartialEq, Eq, Structural)]
pub enum RetentionTier {
    H2ToH4,
    H4ToD1,
    D1ToD3,
    D3ToW1,
    W1ToD30,
    D30ToY1,
    Y1Plus,
}

/// A stored snapshot together with the owner of its note, as read for a
/// retention pass. `created_at` is in microseconds since the Unix epoch.
#[derive(Debug, Clone, Copy, PartialEq, Eq, Structural)]
pub struct SnapshotRecord {
    pub id: u128,
    pub note: u128,
    pub owner: u128,
    pub created_at: i64,
}

/// A snapshot chosen for eviction.
#[derive(Debug, Clone, Copy, PartialEq, Eq, Structural)]
pub struct SnapshotEvictRow {
    pub id: u128,
    pub note: u128,
    pub owner: u128,
}

/// The tiers in the order in which they cover ever older snapshots.
pub open spec fn spec_all_tiers() -> Seq<RetentionTier> {
    seq![
        RetentionTier::H2ToH4,
        RetentionTier::H4ToD1,
        RetentionTier::D1ToD3,
        RetentionTier::D3ToW1,
        RetentionTier::W1ToD30,
        RetentionTier::D30ToY1,
        RetentionTier::Y1Plus,
    ]
}

impl RetentionTier {
    /// Width of one bucket of this tier, in seconds.
    pub open spec fn spec_bucket_secs(self) -> i64 {
        match self {
            RetentionTier::H2ToH4 => 1800,
            RetentionTier::H4ToD1 => 3600,
            RetentionTier::D1ToD3 => 21_600,
            RetentionTier::D3ToW1 => 86_400,
            RetentionTier::W1ToD30 => 604_800,
            RetentionTier::D30ToY1 => 2_592_000,
            RetentionTier::Y1Plus => 31_536_000,
        }
    }

    /// Youngest age, in seconds, of a snapshot in this tier (inclusive).
    pub open spec fn spec_min_age_secs(self) -> i64 {
        match self {
            RetentionTier::H2ToH4 => 7200,
            RetentionTier::H4ToD1 => 14_400,
            RetentionTier::D1ToD3 => 86_400,
            RetentionTier::D3ToW1 => 259_200,
            RetentionTier::W1ToD30 => 604_800,
            RetentionTier::D30ToY1 => 2_592_000,
            RetentionTier::Y1Plus => 31_536_000,
        }
    }

    /// Oldest age, in seconds, of a snapshot in this tier (exclusive); the
    /// last tier has no upper bound.
    pub open spec fn spec_max_age_secs(self) -> Option<i64> {
        match self {
            RetentionTier::H2ToH4 => Some(14_400),
            RetentionTier::H4ToD1 => Some(86_400),
            RetentionTier::D1ToD3 => Some(259_200),
            RetentionTier::D3ToW1 => Some(604_800),
            RetentionTier::W1ToD30 => Some(2_592_000),
            RetentionTier::D30ToY1 => Some(31_536_000),
            RetentionTier::Y1Plus => None,
        }
    }

    /// All tiers, from the youngest to the oldest.
    pub fn all() -> (tiers: Vec<RetentionTier>)
        ensures
            tiers@ == spec_all_tiers(),
    {
        let tiers = vec![
            RetentionTier::H2ToH4,
            RetentionTier::H4ToD1,
            RetentionTier::D1ToD3,
            RetentionTier::D3ToW1,
            RetentionTier::W1ToD30,
            RetentionTier::D30ToY1,
            RetentionTier::Y1Plus,
        ];
        assert(tiers@ =~= spec_all_tiers());
        tiers
    }

    /// Width of one bucket of this tier, in seconds.
    pub fn bucket_secs(self) -> (secs: i64)
        ensures
            secs == self.spec_bucket_secs(),
    {
        match self {
            RetentionTier::H2ToH4 => 1800,
            RetentionTier::H4ToD1 => 3600,
            RetentionTier::D1ToD3 => 21_600,
            RetentionTier::D3ToW1 => 86_400,
            RetentionTier::W1ToD30 => 604_800,
            RetentionTier::D30ToY1 => 2_592_000,
            RetentionTier::Y1Plus => 31_536_000,
        }
    }

    fn min_age_secs(self) -> (secs: i64)
        ensures
            secs == self.spec_min_age_secs(),
    {
        match self {
            RetentionTier::H2ToH4 => 7200,
            RetentionTier::H4ToD1 => 14_400,
            RetentionTier::D1ToD3 => 86_400,
            RetentionTier::D3ToW1 => 259_200,
            RetentionTier::W1ToD30 => 604_800,
            RetentionTier::D30ToY1 => 2_592_000,
            RetentionTier::Y1Plus => 31_536_000,
        }
    }

    fn max_age_secs(self) -> (secs: Option<i64>)
        ensures
            secs == self.spec_max_age_secs(),
    {
        match self {
            RetentionTier::H2ToH4 => Some(14_400),
            RetentionTier::H4ToD1 => Some(86_400),
            RetentionTier::D1ToD3 => Some(259_200),
            RetentionTier::D3ToW1 => Some(604_800),
            RetentionTier::W1ToD30 => Some(2_592_000),
            RetentionTier::D30ToY1 => Some(31_536_000),
            RetentionTier::Y1Plus => None,
        }
    }

    /// Newest creation time (inclusive, microseconds) of a snapshot in this
    /// tier when the pass runs at `now`.
    pub open spec fn spec_newest_inclusive(self, now: i64) -> int {
        now - self.spec_min_age_secs() * MICROS_PER_SEC
    }

    /// Creation time (exclusive, microseconds) that snapshots of this tier
    /// must be newer than, if the tier has an upper age bound.
    pub open spec fn spec_oldest_exclusive(self, now: i64) -> Option<int> {
        match self.spec_max_age_secs() {
            Some(age) => Some(now - age * MICROS_PER_SEC),
            None => None,
        }
    }

    /// Newest creation time (inclusive, microseconds) of a snapshot in this
    /// tier when the pass runs at `now`.
    pub fn newest_inclusive(self, now: i64) -> (t: i64)
        requires
            now >= i64::MIN + 31_536_000 * MICROS_PER_SEC,
        ensures
            t == self.spec_newest_inclusive(now),
    {
        now - self.min_age_secs() * MICROS_PER_SEC
    }

    /// Creation time (exclusive, microseconds) that snapshots of this tier
    /// must be newer than; `None` for the oldest tier.
    pub fn oldest_exclusive(self, now: i64) -> (t: Option<i64>)
        requires
            now >= i64::MIN + 31_536_000 * MICROS_PER_SEC,
        ensures
            match t {
                Some(v) => self.spec_oldest_exclusive(now) == Some(v as int),
                None => self.spec_oldest_exclusive(now) is None,
            },
    {
        match self.max_age_secs() {
            Some(age) => Some(now - age * MICROS_PER_SEC),
            None => None,
        }
    }
}


/// Whether a snapshot created at `t` falls in the age band of `tier` for a
/// pass running at `now`.
pub open spec fn in_tier_window(tier: RetentionTier, now: i64, t: i64) -> bool {
    &&& t <= tier.spec_newest_inclusive(now)
    &&& match tier.spec_oldest_exclusive(now) {
        Some(oldest) => t > oldest,
        None => true,
    }
}

/// Width of one bucket of `tier`, in microseconds.
pub open spec fn bucket_width(tier: RetentionTier) -> int {
    tier.spec_bucket_secs() * MICROS_PER_SEC
}

/// The bucket (counted from the epoch, rounding down) that time `t` falls in.
pub open spec fn bucket_of(tier: RetentionTier, t: i64) -> int {
    t as int / bucket_width(tier)
}

/// Two snapshots compete for the same slot: same note, same bucket.
pub open spec fn same_partition(tier: RetentionTier, a: SnapshotRecord, b: SnapshotRecord) -> bool {
    a.note == b.note && bucket_of(tier, a.created_at) == bucket_of(tier, b.created_at)
}

/// `a` is preferred over `b`: it is newer, or equally new with a larger id.
pub open spec fn ranks_before(a: SnapshotRecord, b: SnapshotRecord) -> bool {
    a.created_at > b.created_at || (a.created_at == b.created_at && a.id > b.id)
}

/// A snapshot in the tier's window is dropped when another snapshot of the
/// same note, in the same window and bucket, ranks before it.
pub open spec fn is_evicted(
    rows: Seq<SnapshotRecord>,
    tier: RetentionTier,
    now: i64,
    r: SnapshotRecord,
) -> bool {
    &&& in_tier_window(tier, now, r.created_at)
    &&& exists|j: int|
        #![trigger rows[j]]
        0 <= j < rows.len() && in_tier_window(tier, now, rows[j].created_at) && same_partition(
            tier,
            rows[j],
            r,
        ) && ranks_before(rows[j], r)
}

pub open spec fn evict_row(r: SnapshotRecord) -> SnapshotEvictRow {
    SnapshotEvictRow { id: r.id, note: r.note, owner: r.owner }
}

/// The eviction choice for one element.
pub open spec fn evict_choice(
    rows: Seq<SnapshotRecord>,
    tier: RetentionTier,
    now: i64,
) -> spec_fn(SnapshotRecord) -> Option<SnapshotEvictRow> {
    |r: SnapshotRecord|
        if is_evicted(rows, tier, now, r) {
            Some(evict_row(r))
        } else {
            None
        }
}

/// The snapshots that a pass over `tier` at `now` drops, in input order.
pub open spec fn spec_ids_to_evict(
    rows: Seq<SnapshotRecord>,
    tier: RetentionTier,
    now: i64,
) -> Seq<SnapshotEvictRow> {
    rows.filter_map(evict_choice(rows, tier, now))
}

/// Rounds `t / width` down.
fn floor_div(t: i64, width: i64) -> (q: i64)
    requires
        width > 0,
    ensures
        q as int == t as int / width as int,
{
    if t >= 0 {
        t / width
    } else {
        let m: i64 = -(t + 1);
        let q: i64 = m / width;
        proof {
            let ti = t as int;
            let w = width as int;
            let mi = m as int;
            let qi = q as int;
            assert(mi == -ti - 1);
            assert(qi == mi / w);
            assert(0 <= mi - qi * w < w) by (nonlinear_arith)
                requires qi == mi / w, w > 0, mi >= 0;
            // t = -(m + 1) = -(q * w + r) - 1 = (-q - 1) * w + (w - r - 1)
            assert(ti == (-qi - 1) * w + (w - (mi - qi * w) - 1)) by (nonlinear_arith)
                requires mi == -ti - 1;
            vstd::arithmetic::div_mod::lemma_fundamental_div_mod_converse(
                ti,
                w,
                -qi - 1,
                w - (mi - qi * w) - 1,
            );
        }
        -q - 1
    }
}

/// Whether the snapshot `r` is in the tier's window and outranked there by
/// another snapshot of its note in the same bucket.
fn evicted_here(
    rows: &Vec<SnapshotRecord>,
    tier: RetentionTier,
    now: i64,
    newest: i64,
    oldest: Option<i64>,
    r: SnapshotRecord,
) -> (b: bool)
    requires
        newest == tier.spec_newest_inclusive(now),
        match oldest {
            Some(v) => tier.spec_oldest_exclusive(now) == Some(v as int),
            None => tier.spec_oldest_exclusive(now) is None,
        },
    ensures
        b == is_evicted(rows@, tier, now, r),
{
    let in_window = r.created_at <= newest && match oldest {
        Some(o) => r.created_at > o,
        None => true,
    };
    if !in_window {
        return false;
    }
    let width: i64 = tier.bucket_secs() * MICROS_PER_SEC;
    let r_bucket = floor_div(r.created_at, width);
    let mut j: usize = 0;
    while j < rows.len()
        invariant
            j <= rows.len(),
            width as int == bucket_width(tier),
            r_bucket as int == bucket_of(tier, r.created_at),
            in_tier_window(tier, now, r.created_at),
            newest == tier.spec_newest_inclusive(now),
            match oldest {
                Some(v) => tier.spec_oldest_exclusive(now) == Some(v as int),
                None => tier.spec_oldest_exclusive(now) is None,
            },
            forall|k: int|
                0 <= k < j ==> !(in_tier_window(tier, now, #[trigger] rows@[k].created_at)
                    && same_partition(tier, rows@[k], r) && ranks_before(rows@[k], r)),
        decreases rows.len() - j,
    {
        let other = rows[j];
        let other_in = other.created_at <= newest && match oldest {
            Some(o) => other.created_at > o,
            None => true,
        };
        if other_in && other.note == r.note && floor_div(other.created_at, width) == r_bucket && (
        other.created_at > r.created_at || (other.created_at == r.created_at && other.id > r.id)) {
            assert(rows@[j as int] == other);
            assert(in_tier_window(tier, now, r.created_at));
            assert(in_tier_window(tier, now, other.created_at));
            assert(same_partition(tier, rows@[j as int], r));
            return true;
        }
        j += 1;
    }
    false
}

/// The snapshots that a retention pass over `tier` at time `now` drops: in
/// the tier's age window, for each note and bucket every snapshot but the
/// newest (the one with the larger id among equally new ones). The result
/// keeps the order of `snapshots`.
pub fn ids_to_evict_for_tier(
    snapshots: &Vec<SnapshotRecord>,
    tier: RetentionTier,
    now: i64,
) -> (evicted: Vec<SnapshotEvictRow>)
    requires
        now >= i64::MIN + 31_536_000 * MICROS_PER_SEC,
    ensures
        evicted@ == spec_ids_to_evict(snapshots@, tier, now),
{
    let newest = tier.newest_inclusive(now);
    let oldest = tier.oldest_exclusive(now);
    let mut out: Vec<SnapshotEvictRow> = Vec::new();
    let mut i: usize = 0;
    while i < snapshots.len()
        invariant
            i <= snapshots.len(),
            newest == tier.spec_newest_inclusive(now),
            match oldest {
                Some(v) => tier.spec_oldest_exclusive(now) == Some(v as int),
                None => tier.spec_oldest_exclusive(now) is None,
            },
            out@ == snapshots@.take(i as int).filter_map(evict_choice(snapshots@, tier, now)),
        decreases snapshots.len() - i,
    {
        let r = snapshots[i];
        let ev = evicted_here(snapshots, tier, now, newest, oldest, r);
        proof {
            assert(snapshots@.take(i + 1).drop_last() =~= snapshots@.take(i as int));
            assert(snapshots@.take(i + 1).last() == r);
        }
        if ev {
            out.push(SnapshotEvictRow { id: r.id, note: r.note, owner: r.owner });
        }
        i += 1;
    }
    assert(snapshots@.take(snapshots.len() as int) =~= snapshots@);
    out
}


proof fn lemma_newest_in_prefix(
    rows: Seq<SnapshotRecord>,
    tier: RetentionTier,
    now: i64,
    r: SnapshotRecord,
    n: int,
)
    requires
        0 <= n <= rows.len(),
        exists|i: int|
            0 <= i < n && in_tier_window(tier, now, #[trigger] rows[i].created_at)
                && same_partition(tier, rows[i], r),
    ensures
        exists|k: int|
            0 <= k < n && in_tier_window(tier, now, #[trigger] rows[k].created_at)
                && same_partition(tier, rows[k], r) && forall|j: int|
                0 <= j < n ==> !(in_tier_window(tier, now, #[trigger] rows[j].created_at)
                    && same_partition(tier, rows[j], r) && ranks_before(rows[j], rows[k])),
    decreases n,
{
    let last = n - 1;
    if exists|i: int|
        0 <= i < last && in_tier_window(tier, now, #[trigger] rows[i].created_at)
            && same_partition(tier, rows[i], r) {
        lemma_newest_in_prefix(rows, tier, now, r, last);
        let k = choose|k: int|
            0 <= k < last && in_tier_window(tier, now, #[trigger] rows[k].created_at)
                && same_partition(tier, rows[k], r) && forall|j: int|
                0 <= j < last ==> !(in_tier_window(tier, now, #[trigger] rows[j].created_at)
                    && same_partition(tier, rows[j], r) && ranks_before(rows[j], rows[k]));
        if in_tier_window(tier, now, rows[last].created_at) && same_partition(tier, rows[last], r)
            && ranks_before(rows[last], rows[k]) {
            assert forall|j: int|
                0 <= j < n implies !(in_tier_window(tier, now, #[trigger] rows[j].created_at)
                && same_partition(tier, rows[j], r) && ranks_before(rows[j], rows[last])) by {
                if j < last && in_tier_window(tier, now, rows[j].created_at) && same_partition(
                    tier,
                    rows[j],
                    r,
                ) && ranks_before(rows[j], rows[last]) {
                    assert(ranks_before(rows[j], rows[k]));
                }
            }
        } else {
            assert forall|j: int|
                0 <= j < n implies !(in_tier_window(tier, now, #[trigger] rows[j].created_at)
                && same_partition(tier, rows[j], r) && ranks_before(rows[j], rows[k])) by {}
        }
    } else {
        assert(in_tier_window(tier, now, rows[last].created_at) && same_partition(
            tier,
            rows[last],
            r,
        ));
        assert forall|j: int|
            0 <= j < n implies !(in_tier_window(tier, now, #[trigger] rows[j].created_at)
            && same_partition(tier, rows[j], r) && ranks_before(rows[j], rows[last])) by {
            if j < last {
                assert(!(in_tier_window(tier, now, rows[j].created_at) && same_partition(
                    tier,
                    rows[j],
                    r,
                )));
            }
        }
    }
}

/// Every slot (note and bucket) that holds a snapshot in the tier's window
/// keeps one: some snapshot of that slot is not evicted.
pub proof fn lemma_slot_keeps_newest(
    rows: Seq<SnapshotRecord>,
    tier: RetentionTier,
    now: i64,
    i: int,
)
    requires
        0 <= i < rows.len(),
        in_tier_window(tier, now, rows[i].created_at),
    ensures
        exists|k: int|
            0 <= k < rows.len() && in_tier_window(tier, now, #[trigger] rows[k].created_at)
                && same_partition(tier, rows[k], rows[i]) && !is_evicted(rows, tier, now, rows[k]),
{
    let r = rows[i];
    lemma_newest_in_prefix(rows, tier, now, r, rows.len() as int);
    let k = choose|k: int|
        0 <= k < rows.len() && in_tier_window(tier, now, #[trigger] rows[k].created_at)
            && same_partition(tier, rows[k], r) && forall|j: int|
            0 <= j < rows.len() ==> !(in_tier_window(tier, now, #[trigger] rows[j].created_at)
                && same_partition(tier, rows[j], r) && ranks_before(rows[j], rows[k]));
    assert(!is_evicted(rows, tier, now, rows[k])) by {
        if is_evicted(rows, tier, now, rows[k]) {
            let j = choose|j: int|
                #![trigger rows[j]]
                0 <= j < rows.len() && in_tier_window(tier, now, rows[j].created_at)
                    && same_partition(tier, rows[j], rows[k]) && ranks_before(rows[j], rows[k]);
            assert(same_partition(tier, rows[j], r));
        }
    }
}

/// When snapshot ids are distinct, a slot keeps at most one snapshot: two
/// kept snapshots of the same note and bucket are the same snapshot.
pub proof fn lemma_slot_keeps_at_most_one(
    rows: Seq<SnapshotRecord>,
    tier: RetentionTier,
    now: i64,
    a: int,
    b: int,
)
    requires
        forall|x: int, y: int|
            0 <= x < rows.len() && 0 <= y < rows.len() && x != y ==> #[trigger] rows[x].id
                != #[trigger] rows[y].id,
        0 <= a < rows.len(),
        0 <= b < rows.len(),
        in_tier_window(tier, now, rows[a].created_at),
        in_tier_window(tier, now, rows[b].created_at),
        same_partition(tier, rows[a], rows[b]),
        !is_evicted(rows, tier, now, rows[a]),
        !is_evicted(rows, tier, now, rows[b]),
    ensures
        a == b,
{
    if a != b {
        assert(rows[a].id != rows[b].id);
        if ranks_before(rows[a], rows[b]) {
            assert(is_evicted(rows, tier, now, rows[b]));
        } else {
            assert(ranks_before(rows[b], rows[a]));
            assert(same_partition(tier, rows[b], rows[a]));
            assert(is_evicted(rows, tier, now, rows[a]));
        }
    }
}

/// Whatever a pass evicts is a snapshot of the input that lies in the tier's
/// window and is outranked in its slot.
pub proof fn lemma_evicted_are_outranked(
    rows: Seq<SnapshotRecord>,
    tier: RetentionTier,
    now: i64,
    e: SnapshotEvictRow,
)
    requires
        spec_ids_to_evict(rows, tier, now).contains(e),
    ensures
        exists|i: int|
            0 <= i < rows.len() && evict_row(#[trigger] rows[i]) == e && is_evicted(
                rows,
                tier,
                now,
                rows[i],
            ),
{
    rows.lemma_filter_map_contains(evict_choice(rows, tier, now), e);
    let t = choose|t: SnapshotRecord|
        #[trigger] rows.contains(t) && evict_choice(rows, tier, now)(t) == Some(e);
    let i = choose|i: int| 0 <= i < rows.len() && rows[i] == t;
    assert(evict_row(rows[i]) == e);
}

/// The tiers split the ages of at least two hours without gap or overlap:
/// a snapshot at least two hours old lies in the window of exactly one tier,
/// and a younger one lies in none.
pub proof fn lemma_tiers_partition_ages(now: i64, t: i64)
    ensures
        t as int <= now - 7200 * MICROS_PER_SEC ==> exists|k: int|
            0 <= k < spec_all_tiers().len() && in_tier_window(
                #[trigger] spec_all_tiers()[k],
                now,
                t,
            ),
        forall|k1: int, k2: int|
            0 <= k1 < spec_all_tiers().len() && 0 <= k2 < spec_all_tiers().len()
                && in_tier_window(#[trigger] spec_all_tiers()[k1], now, t) && in_tier_window(
                #[trigger] spec_all_tiers()[k2],
                now,
                t,
            ) ==> k1 == k2,
        t as int > now - 7200 * MICROS_PER_SEC ==> forall|k: int|
            0 <= k < spec_all_tiers().len() ==> !in_tier_window(
                #[trigger] spec_all_tiers()[k],
                now,
                t,
            ),
{
    let all = spec_all_tiers();
    assert(all[0] == RetentionTier::H2ToH4);
    assert(all[1] == RetentionTier::H4ToD1);
    assert(all[2] == RetentionTier::D1ToD3);
    assert(all[3] == RetentionTier::D3ToW1);
    assert(all[4] == RetentionTier::W1ToD30);
    assert(all[5] == RetentionTier::D30ToY1);
    assert(all[6] == RetentionTier::Y1Plus);
    if t as int <= now - 7200 * MICROS_PER_SEC {
        if t as int > now - 14_400 * MICROS_PER_SEC {
            assert(in_tier_window(all[0], now, t));
        } else if t as int > now - 86_400 * MICROS_PER_SEC {
            assert(in_tier_window(all[1], now, t));
        } else if t as int > now - 259_200 * MICROS_PER_SEC {
            assert(in_tier_window(all[2], now, t));
        } else if t as int > now - 604_800 * MICROS_PER_SEC {
            assert(in_tier_window(all[3], now, t));
        } else if t as int > now - 2_592_000 * MICROS_PER_SEC {
            assert(in_tier_window(all[4], now, t));
        } else if t as int > now - 31_536_000 * MICROS_PER_SEC {
            assert(in_tier_window(all[5], now, t));
        } else {
            assert(in_tier_window(all[6], now, t));
        }
    }
}

/// The snapshots a pass over `tier` at `now` keeps, in input order.
pub open spec fn spec_kept(rows: Seq<SnapshotRecord>, tier: RetentionTier, now: i64) -> Seq<
    SnapshotRecord,
> {
    rows.filter(|r: SnapshotRecord| !is_evicted(rows, tier, now, r))
}

/// A second pass at the same time evicts nothing: once the evicted
/// snapshots are gone, every slot holds only its newest snapshot.
pub proof fn lemma_second_pass_evicts_nothing(rows: Seq<SnapshotRecord>, tier: RetentionTier, now: i64)
    ensures
        spec_ids_to_evict(spec_kept(rows, tier, now), tier, now) == Seq::<SnapshotEvictRow>::empty(),
{
    let pred = |r: SnapshotRecord| !is_evicted(rows, tier, now, r);
    let kept = rows.filter(pred);
    let out = spec_ids_to_evict(kept, tier, now);
    if out.len() > 0 {
        let e = out[0];
        assert(out.contains(e));
        kept.lemma_filter_map_contains(evict_choice(kept, tier, now), e);
        let t = choose|t: SnapshotRecord|
            #[trigger] kept.contains(t) && evict_choice(kept, tier, now)(t) == Some(e);
        assert(is_evicted(kept, tier, now, t));
        let j = choose|j: int|
            #![trigger kept[j]]
            0 <= j < kept.len() && in_tier_window(tier, now, kept[j].created_at) && same_partition(
                tier,
                kept[j],
                t,
            ) && ranks_before(kept[j], t);
        rows.lemma_filter_contains_rev(pred, kept[j]);
        let jr = choose|jr: int| 0 <= jr < rows.len() && rows[jr] == kept[j];
        assert(rows[jr] == kept[j]);
        assert(is_evicted(rows, tier, now, t));
        rows.lemma_filter_contains_rev(pred, t);
        assert(pred(t));
    }
    assert(out =~= Seq::<SnapshotEvictRow>::empty());
}

/// A snapshot less than two hours old is evicted by no pass, whatever the
/// tier (snapshot ids being distinct, as they are stored).
pub proof fn lemma_young_snapshots_never_evicted(
    rows: Seq<SnapshotRecord>,
    tier: RetentionTier,
    now: i64,
    k: int,
    e: SnapshotEvictRow,
)
    requires
        forall|x: int, y: int|
            0 <= x < rows.len() && 0 <= y < rows.len() && x != y ==> #[trigger] rows[x].id
                != #[trigger] rows[y].id,
        0 <= k < rows.len(),
        rows[k].created_at > now - 7200 * MICROS_PER_SEC,
        spec_ids_to_evict(rows, tier, now).contains(e),
    ensures
        e.id != rows[k].id,
{
    lemma_evicted_are_outranked(rows, tier, now, e);
    let i = choose|i: int|
        0 <= i < rows.len() && evict_row(#[trigger] rows[i]) == e && is_evicted(rows, tier, now, rows[i]);
    assert(in_tier_window(tier, now, rows[i].created_at));
    assert(rows[i].created_at <= now - 7200 * MICROS_PER_SEC);
    if i != k {
        assert(rows[i].id != rows[k].id);
    }
}

/// The length of a slot of each tier in microseconds, as the tiers are
/// documented: half an hour, an hour, six hours, a day, a week, thirty
/// days and a year (of 365 days), slots counted from the epoch.
pub open spec fn documented_slot_micros(tier: RetentionTier) -> int {
    let minute: int = 60_000_000int;
    let day: int = 1440 * minute;
    match tier {
        RetentionTier::H2ToH4 => 30 * minute,
        RetentionTier::H4ToD1 => 60 * minute,
        RetentionTier::D1ToD3 => 6 * 60 * minute,
        RetentionTier::D3ToW1 => day,
        RetentionTier::W1ToD30 => 7 * day,
        RetentionTier::D30ToY1 => 30 * day,
        RetentionTier::Y1Plus => 365 * day,
    }
}

proof fn lemma_bucket_width_documented(tier: RetentionTier)
    ensures
        bucket_width(tier) == documented_slot_micros(tier),
{
}

proof fn lemma_evicted_listed(rows: Seq<SnapshotRecord>, tier: RetentionTier, now: i64, i: int)
    requires
        0 <= i < rows.len(),
        is_evicted(rows, tier, now, rows[i]),
    ensures
        spec_ids_to_evict(rows, tier, now).contains(evict_row(rows[i])),
{
    let f = evict_choice(rows, tier, now);
    rows.lemma_filter_map_take_succ(f, i);
    let pre = rows.take(i + 1).filter_map(f);
    assert(pre[pre.len() - 1] == evict_row(rows[i]));
    lemma_filter_map_prefix(rows, f, i + 1);
    let k = pre.len() - 1;
    assert(spec_ids_to_evict(rows, tier, now)[k] == pre[k]);
}

proof fn lemma_filter_map_prefix(
    s: Seq<SnapshotRecord>,
    f: spec_fn(SnapshotRecord) -> Option<SnapshotEvictRow>,
    n: int,
)
    requires
        0 <= n <= s.len(),
    ensures
        s.take(n).filter_map(f).len() <= s.filter_map(f).len(),
        forall|k: int|
            0 <= k < s.take(n).filter_map(f).len() ==> #[trigger] s.take(n).filter_map(f)[k]
                == s.filter_map(f)[k],
    decreases s.len() - n,
{
    if n < s.len() {
        s.lemma_filter_map_take_succ(f, n);
        lemma_filter_map_prefix(s, f, n + 1);
        let a = s.take(n).filter_map(f);
        let b = s.take(n + 1).filter_map(f);
        assert forall|k: int| 0 <= k < a.len() implies #[trigger] a[k] == s.filter_map(f)[k] by {
            assert(a[k] == b[k]);
        }
    } else {
        assert(s.take(n) =~= s);
    }
}

/// Within a tier's window, a snapshot outranked by another snapshot of its
/// note in the same documented slot (half hour, hour, six hours, day, week,
/// thirty days or year, by tier) is evicted.
pub proof fn lemma_same_slot_older_evicted(
    rows: Seq<SnapshotRecord>,
    tier: RetentionTier,
    now: i64,
    i: int,
    j: int,
)
    requires
        0 <= i < rows.len(),
        0 <= j < rows.len(),
        rows[i].note == rows[j].note,
        in_tier_window(tier, now, rows[i].created_at),
        in_tier_window(tier, now, rows[j].created_at),
        rows[i].created_at as int / documented_slot_micros(tier) == rows[j].created_at as int
            / documented_slot_micros(tier),
        ranks_before(rows[j], rows[i]),
    ensures
        spec_ids_to_evict(rows, tier, now).contains(evict_row(rows[i])),
{
    lemma_bucket_width_documented(tier);
    assert(same_partition(tier, rows[j], rows[i]));
    assert(is_evicted(rows, tier, now, rows[i]));
    lemma_evicted_listed(rows, tier, now, i);
}

/// Within a tier's window, a snapshot that no other snapshot of its note
/// shares a documented slot with (half hour, hour, six hours, day, week,
/// thirty days or year, by tier) is kept (snapshot ids being distinct).
pub proof fn lemma_alone_in_slot_kept(rows: Seq<SnapshotRecord>, tier: RetentionTier, now: i64, i: int)
    requires
        forall|x: int, y: int|
            0 <= x < rows.len() && 0 <= y < rows.len() && x != y ==> #[trigger] rows[x].id
                != #[trigger] rows[y].id,
        0 <= i < rows.len(),
        forall|j: int|
            0 <= j < rows.len() && j != i && #[trigger] rows[j].note == rows[i].note && in_tier_window(
                tier,
                now,
                rows[j].created_at,
            ) ==> rows[j].created_at as int / documented_slot_micros(tier) != rows[i].created_at as int
                / documented_slot_micros(tier),
    ensures
        !spec_ids_to_evict(rows, tier, now).contains(evict_row(rows[i])),
{
    lemma_bucket_width_documented(tier);
    if spec_ids_to_evict(rows, tier, now).contains(evict_row(rows[i])) {
        lemma_evicted_are_outranked(rows, tier, now, evict_row(rows[i]));
        let k = choose|k: int|
            0 <= k < rows.len() && evict_row(#[trigger] rows[k]) == evict_row(rows[i]) && is_evicted(
                rows,
                tier,
                now,
                rows[k],
            );
        if k != i {
            assert(rows[k].id != rows[i].id);
        }
        assert(is_evicted(rows, tier, now, rows[i]));
        let j = choose|j: int|
            #![trigger rows[j]]
            0 <= j < rows.len() && in_tier_window(tier, now, rows[j].created_at) && same_partition(
                tier,
                rows[j],
                rows[i],
            ) && ranks_before(rows[j], rows[i]);
        assert(j != i);
        assert(rows[j].note == rows[i].note);
    }
}

/// The age bands of the tiers, as documented: two to four hours, four hours
/// to a day, one to three days, three days to a week, a week to thirty
/// days, thirty days to a year (of 365 days), and a year or more; each band
/// includes its lower bound and excludes its upper one.
pub proof fn lemma_documented_windows(tier: RetentionTier, now: i64, t: i64)
    ensures
        in_tier_window(tier, now, t) <==> ({
            let age = now - t;
            let hour: int = 3_600_000_000int;
            let day: int = 24 * hour;
            match tier {
                RetentionTier::H2ToH4 => 2 * hour <= age < 4 * hour,
                RetentionTier::H4ToD1 => 4 * hour <= age < day,
                RetentionTier::D1ToD3 => day <= age < 3 * day,
                RetentionTier::D3ToW1 => 3 * day <= age < 7 * day,
                RetentionTier::W1ToD30 => 7 * day <= age < 30 * day,
                RetentionTier::D30ToY1 => 30 * day <= age < 365 * day,
                RetentionTier::Y1Plus => 365 * day <= age,
            }
        }),
{
}

} // verus!
