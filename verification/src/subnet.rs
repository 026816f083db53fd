//! Deterministic subnet statistics: a pure stand-in for a live chain query.
//!
//! The derivation seeds on the sum of the identifier's code points and maps
//! the seed into fixed ranges by modulo arithmetic, so a fixed identifier
//! always yields the same statistics. The interface lets a genuine query
//! replace the derivation without touching callers.

use vstd::prelude::*;
use vstd::string::StrSliceExecFns;

verus! {

/// Statistics derived for one subnet.
pub struct SubnetInfo {
    pub id: String,
    pub total_addresses: u64,
    pub active_validators: u64,
    pub cross_subnet_txs: u64,
    pub risk_score: u8,
}

/// The same statistics, as answered on the subnet-stats query path.
pub struct SubnetStats {
    pub id: String,
    pub total_addresses: u64,
    pub active_validators: u64,
    pub cross_subnet_txs: u64,
    pub risk_score: u8,
}

/// Seed of the derivation: the sum of the identifier's code points,
/// wrapping at the machine-word bound.
pub open spec fn seed_of(s: Seq<char>) -> u64
    decreases s.len(),
{
    if s.len() == 0 {
        0u64
    } else {
        vstd::wrapping::u64_specs::wrapping_add(seed_of(s.drop_last()), (s.last() as u32) as u64)
    }
}

/// Total addresses: bounded in [1000, 10000).
pub open spec fn spec_total_addresses(id: Seq<char>) -> int {
    1000 + seed_of(id) % 9000
}

/// Active validators: bounded in [10, 100).
pub open spec fn spec_active_validators(id: Seq<char>) -> int {
    10 + seed_of(id) % 90
}

/// Cross-subnet transactions: bounded in [500, 2000).
pub open spec fn spec_cross_subnet_txs(id: Seq<char>) -> int {
    500 + seed_of(id) % 1500
}

/// Risk score: bounded in [0, 100).
pub open spec fn spec_risk_score(id: Seq<char>) -> int {
    (seed_of(id) as int) % 100
}

/// Sums the identifier's code points, wrapping on overflow.
fn compute_seed(s: &str) -> (seed: u64)
    ensures
        seed == seed_of(s@),
{
    let n = s.unicode_len();
    let mut seed: u64 = 0;
    let mut i: usize = 0;
    while i < n
        invariant
            0 <= i <= n,
            n == s@.len(),
            seed == seed_of(s@.subrange(0, i as int)),
        decreases n - i,
    {
        let c = s.get_char(i);
        seed = seed.wrapping_add((c as u32) as u64);
        proof {
            let pre = s@.subrange(0, i as int);
            let cur = s@.subrange(0, i + 1);
            assert(cur.drop_last() =~= pre);
            assert(cur.last() == s@[i as int]);
        }
        i += 1;
    }
    proof {
        assert(s@.subrange(0, n as int) =~= s@);
    }
    seed
}

/// Derives the deterministic statistics for a subnet identifier. Pure and
/// total: every identifier produces a result, there is no failure mode.
pub fn get_subnet_info(subnet_id: &str) -> (r: SubnetInfo)
    ensures
        r.id@ == subnet_id@,
        r.total_addresses == spec_total_addresses(subnet_id@),
        r.active_validators == spec_active_validators(subnet_id@),
        r.cross_subnet_txs == spec_cross_subnet_txs(subnet_id@),
        r.risk_score == spec_risk_score(subnet_id@),
{
    let seed = compute_seed(subnet_id);
    let score = (seed % 100) as u8;
    // The modulo already bounds the score below 100, so this clamp can never
    // fire; it is kept deliberately as defensive code for a future range
    // change, not silently dropped.
    let clamped = if score > 100 {
        100
    } else {
        score
    };
    SubnetInfo {
        id: subnet_id.to_owned(),
        total_addresses: 1000 + seed % 9000,
        active_validators: 10 + seed % 90,
        cross_subnet_txs: 500 + seed % 1500,
        risk_score: clamped,
    }
}

/// Answers the subnet-stats query: the derived statistics, field for field.
pub fn get_subnet_stats(subnet_id: &str) -> (r: SubnetStats)
    ensures
        r.id@ == subnet_id@,
        r.total_addresses == spec_total_addresses(subnet_id@),
        r.active_validators == spec_active_validators(subnet_id@),
        r.cross_subnet_txs == spec_cross_subnet_txs(subnet_id@),
        r.risk_score == spec_risk_score(subnet_id@),
{
    let info = get_subnet_info(subnet_id);
    SubnetStats {
        id: info.id,
        total_addresses: info.total_addresses,
        active_validators: info.active_validators,
        cross_subnet_txs: info.cross_subnet_txs,
        risk_score: info.risk_score,
    }
}

/// Law: each statistic stays within its documented bound, the risk score
/// within [0, 100].
pub proof fn lemma_stats_in_bounds(id: Seq<char>)
    ensures
        1000 <= spec_total_addresses(id) < 10000,
        10 <= spec_active_validators(id) < 100,
        500 <= spec_cross_subnet_txs(id) < 2000,
        0 <= spec_risk_score(id) <= 100,
{
}

/// Law: the derivation is idempotent — any two results derived for the same
/// identifier are identical, field for field.
pub proof fn lemma_stats_idempotent(id: Seq<char>, a: SubnetInfo, b: SubnetInfo)
    requires
        a.id@ == id,
        a.total_addresses == spec_total_addresses(id),
        a.active_validators == spec_active_validators(id),
        a.cross_subnet_txs == spec_cross_subnet_txs(id),
        a.risk_score == spec_risk_score(id),
        b.id@ == id,
        b.total_addresses == spec_total_addresses(id),
        b.active_validators == spec_active_validators(id),
        b.cross_subnet_txs == spec_cross_subnet_txs(id),
        b.risk_score == spec_risk_score(id),
    ensures
        a.id@ == b.id@,
        a.total_addresses == b.total_addresses,
        a.active_validators == b.active_validators,
        a.cross_subnet_txs == b.cross_subnet_txs,
        a.risk_score == b.risk_score,
{
}

} // verus!
