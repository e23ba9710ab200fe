use capgov::BaselineModel;
use capgov::ImpactMetrics;
use capgov::JusticeConstraints;
use capgov::Ratio;
use capgov::SafetyEpochManifest;
use capgov::VNodeId;
use capgov::current_epoch_window;
use sha2::Digest;

fn vnode() -> VNodeId {
    VNodeId {
        vnode_id: "vnode-7".to_string(),
        policy_shard_id: "shard-traffic".to_string(),
    }
}

fn metrics(t_co2e: i64, pollution: i64, near_misses: u64) -> ImpactMetrics {
    ImpactMetrics {
        t_co2e_avoided: t_co2e,
        kwh_reduced: 2_000,
        pollution_exposure_delta: pollution,
        near_misses_blocked: near_misses,
        biosafety_delta: 100,
    }
}

fn baseline(certified: bool, min_ratio: (u64, u64)) -> BaselineModel {
    BaselineModel {
        description: "conservative grid baseline".to_string(),
        additionality_certified: certified,
        min_improvement_ratio: Ratio::new(min_ratio.0, min_ratio.1),
    }
}

fn justice(forbid_shift: bool) -> JusticeConstraints {
    JusticeConstraints {
        forbid_burden_shifting: forbid_shift,
        require_opt_out_respected: true,
    }
}

fn manifest(certified: bool, min_ratio: (u64, u64), pollution: i64) -> SafetyEpochManifest {
    SafetyEpochManifest::new(
        vnode(),
        1_000,
        2_000,
        metrics(5_000, pollution, 3),
        baseline(certified, min_ratio),
        justice(true),
        "merkle-root-abc".to_string(),
        vec!["mrv:sensor-1".to_string()],
        Some("prevhash".to_string()),
    )
}

/// The canonical field encoding: an eight-byte big-endian length then the
/// bytes for each string, raw eight-byte big-endian integers, and absent
/// optional fields contributing nothing.
fn push_field(buf: &mut Vec<u8>, s: &str) {
    buf.extend_from_slice(&(s.len() as u64).to_be_bytes());
    buf.extend_from_slice(s.as_bytes());
}

#[test]
fn manifest_hash_matches_an_independent_computation() {
    let m = manifest(true, (0, 1), -5);
    let mut buf: Vec<u8> = Vec::new();
    push_field(&mut buf, &m.id);
    push_field(&mut buf, "vnode-7");
    push_field(&mut buf, "shard-traffic");
    buf.extend_from_slice(&1_000u64.to_be_bytes());
    buf.extend_from_slice(&2_000u64.to_be_bytes());
    push_field(&mut buf, "merkle-root-abc");
    push_field(&mut buf, "prevhash");
    let digest = sha2::Sha256::digest(&buf);
    let expected: String = digest.iter().map(|b| format!("{:02x}", b)).collect();
    assert_eq!(m.self_hash, expected);
}

#[test]
fn manifest_identity_has_uuid_shape_and_hash_is_hex() {
    let m = manifest(true, (0, 1), -5);
    assert_eq!(m.id.len(), 36);
    assert_eq!(m.self_hash.len(), 64);
    assert!(m.self_hash.chars().all(|c| c.is_ascii_hexdigit()));
}

#[test]
fn uncertified_baseline_is_ineligible() {
    let m = manifest(false, (0, 1), -5);
    assert!(!m.is_eligible_for_karma());
    assert!(m.to_karma_allowance(None, 1, 1, 1).is_none());
}

#[test]
fn burden_shifting_makes_ineligible() {
    // A positive pollution-exposure change means someone is worse off.
    let m = manifest(true, (0, 1), 42);
    assert!(!m.is_eligible_for_karma());
}

#[test]
fn improvement_floor_above_full_makes_ineligible() {
    // The computed improvement is at most one; a minimum above one can
    // never be met.
    let m = manifest(true, (3, 2), -5);
    assert!(!m.is_eligible_for_karma());
}

#[test]
fn reachable_improvement_floor_is_met() {
    // Positive avoided emissions count as full improvement, which meets a
    // minimum of one half.
    let m = manifest(true, (1, 2), -5);
    assert!(m.is_eligible_for_karma());
}

#[test]
fn allowance_carries_exact_accounting_delta() {
    let m = manifest(true, (0, 1), -5);
    let a = m
        .to_karma_allowance(Some("chain-prev".to_string()), 7, 3, 11)
        .expect("eligible manifest converts");
    // 5000 * 7 + 2000 * 3 + 3 * 11
    assert_eq!(a.au_et_delta, 35_000 + 6_000 + 33);
    assert_eq!(a.manifest_hash, m.self_hash);
    assert_eq!(a.prev_hash.as_deref(), Some("chain-prev"));
    assert_eq!(a.epoch_start, 1_000);
    assert_eq!(a.epoch_end, 2_000);
    assert_eq!(a.id.len(), 36);
    assert_eq!(a.self_hash.len(), 64);
    // The allowance chain hash also matches an independent computation.
    let mut buf: Vec<u8> = Vec::new();
    push_field(&mut buf, &a.id);
    push_field(&mut buf, "vnode-7");
    push_field(&mut buf, "shard-traffic");
    buf.extend_from_slice(&1_000u64.to_be_bytes());
    buf.extend_from_slice(&2_000u64.to_be_bytes());
    push_field(&mut buf, &a.manifest_hash);
    push_field(&mut buf, "chain-prev");
    let digest = sha2::Sha256::digest(&buf);
    let expected: String = digest.iter().map(|b| format!("{:02x}", b)).collect();
    assert_eq!(a.self_hash, expected);
}

#[test]
fn negative_prices_give_negative_delta() {
    let m = manifest(true, (0, 1), -5);
    let a = m.to_karma_allowance(None, -1, 0, 0).expect("eligible");
    assert_eq!(a.au_et_delta, -5_000);
    assert_eq!(a.prev_hash, None);
}

#[test]
fn allowances_refuse_transfer() {
    let m = manifest(true, (0, 1), -5);
    let a = m.to_karma_allowance(None, 1, 1, 1).unwrap();
    assert_eq!(
        a.forbid_transfer("did:example:bob"),
        Err("karma allowances are non-transferable and non-mintable")
    );
}

#[test]
fn epoch_window_is_aligned_and_one_epoch_long() {
    let (start, end) = current_epoch_window(3_600);
    assert_eq!(start % 3_600, 0);
    assert_eq!(end, start + 3_600);
}
