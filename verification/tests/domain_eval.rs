use capgov::CapSet;
use capgov::CapabilityGovernance;
use capgov::CapabilityId;
use capgov::CompetitiveDomain;
use capgov::DomainState;
use capgov::GovernanceConstitution;
use capgov::GovernanceError;
use capgov::GovernanceProposal;
use capgov::GovernanceVoteOutcome;
use capgov::Ratio;

fn cap_set(names: &[&str]) -> CapSet {
    let mut s = CapSet::new();
    for n in names {
        s.insert(CapabilityId((*n).to_string()));
    }
    s
}

fn domain(id: &str, caps: &[&str], min: usize) -> CompetitiveDomain {
    CompetitiveDomain {
        id: id.to_string(),
        description: "test arena".to_string(),
        allowed_capabilities: cap_set(caps),
        min_capability_count: min,
    }
}

fn constitution(
    floor: usize,
    max_frac: (u64, u64),
    super_floor: (u64, u64),
    hard_protect: bool,
    nonrestrictable: &[&str],
) -> GovernanceConstitution {
    GovernanceConstitution {
        global_min_capability_floor: floor,
        max_restriction_fraction_per_turn: Ratio::new(max_frac.0, max_frac.1),
        min_supermajority_floor: Ratio::new(super_floor.0, super_floor.1),
        hard_protect_safety_capabilities: hard_protect,
        globally_nonrestrictable: cap_set(nonrestrictable),
    }
}

fn proposal(domain_id: &str, restrict: &[&str], supermajority: (u64, u64), height: u64) -> GovernanceProposal {
    GovernanceProposal {
        proposal_id: "prop-1".to_string(),
        domain_id: domain_id.to_string(),
        restrict_capabilities: cap_set(restrict),
        protect_capabilities: CapSet::new(),
        required_supermajority: Ratio::new(supermajority.0, supermajority.1),
        activation_height: height,
    }
}

fn outcome(yes: u128, no: u128, finalized: u64) -> GovernanceVoteOutcome {
    GovernanceVoteOutcome {
        proposal_id: "prop-1".to_string(),
        yes_weight: yes,
        no_weight: no,
        finalized_height: finalized,
    }
}

#[test]
fn domain_floor_rejection() {
    // Seven allowed capabilities, a domain floor of five, a global floor of
    // four; restricting three would leave four enabled, below the domain
    // floor, although the vote clears both supermajority bars.
    let mut gov = CapabilityGovernance::new(constitution(4, (1, 1), (67, 100), true, &[]));
    gov.upsert_domain(domain("arena", &["a", "b", "c", "d", "e", "f", "g"], 5));
    let r = gov.evaluate_proposal(&proposal("arena", &["a", "b", "c"], (75, 100), 10), &outcome(80, 20, 10), 10);
    assert!(matches!(r, Err(GovernanceError::DomainFloorViolated)));
}

#[test]
fn inert_due_to_timing() {
    // The same setup, but the proposal activates at height 1000 and the
    // chain is at 999: the proposal is inert, whatever the vote says.
    let mut gov = CapabilityGovernance::new(constitution(4, (1, 1), (67, 100), true, &[]));
    gov.upsert_domain(domain("arena", &["a", "b", "c", "d", "e", "f", "g"], 5));
    let r = gov.evaluate_proposal(
        &proposal("arena", &["a", "b", "c"], (75, 100), 1000),
        &outcome(80, 20, 999),
        999,
    );
    assert!(matches!(r, Ok(None)));
}

#[test]
fn successful_restriction() {
    // Ten allowed capabilities, floors five and four, a per-turn cap of two
    // fifths; restricting three unprotected capabilities with ninety percent
    // support applies and leaves three disabled.
    let mut gov = CapabilityGovernance::new(constitution(4, (2, 5), (67, 100), true, &[]));
    gov.upsert_domain(domain(
        "arena",
        &["a", "b", "c", "d", "e", "f", "g", "h", "i", "j"],
        5,
    ));
    let r = gov.evaluate_proposal(&proposal("arena", &["a", "b", "c"], (75, 100), 10), &outcome(90, 10, 10), 10);
    let state = r.expect("proposal should be accepted").expect("proposal should apply");
    assert_eq!(state.disabled_capabilities.len(), 3);
    for name in ["a", "b", "c"] {
        assert!(state.disabled_capabilities.contains_id(&CapabilityId(name.to_string())));
    }
    assert_eq!(state.domain.allowed_capabilities.len(), 10);
}

#[test]
fn unknown_domain_is_an_error() {
    let gov = CapabilityGovernance::new(constitution(0, (1, 1), (1, 2), false, &[]));
    let r = gov.evaluate_proposal(&proposal("nowhere", &["a"], (1, 2), 0), &outcome(1, 0, 0), 0);
    assert!(matches!(r, Err(GovernanceError::UnknownDomain)));
}

#[test]
fn zero_weight_vote_is_inert() {
    let mut gov = CapabilityGovernance::new(constitution(0, (1, 1), (1, 2), false, &[]));
    gov.upsert_domain(domain("arena", &["a", "b"], 0));
    let r = gov.evaluate_proposal(&proposal("arena", &["a"], (1, 2), 0), &outcome(0, 0, 0), 5);
    assert!(matches!(r, Ok(None)));
}

#[test]
fn failed_supermajority_is_inert() {
    // Sixty percent yes, but the proposal demands three quarters.
    let mut gov = CapabilityGovernance::new(constitution(0, (1, 1), (1, 2), false, &[]));
    gov.upsert_domain(domain("arena", &["a", "b", "c", "d"], 0));
    let r = gov.evaluate_proposal(&proposal("arena", &["a"], (3, 4), 0), &outcome(60, 40, 0), 5);
    assert!(matches!(r, Ok(None)));
}

#[test]
fn constitutional_floor_is_the_stricter_bar() {
    // The proposal's own bar passes at sixty percent, but the constitution
    // demands at least two thirds.
    let mut gov = CapabilityGovernance::new(constitution(0, (1, 1), (2, 3), false, &[]));
    gov.upsert_domain(domain("arena", &["a", "b", "c", "d"], 0));
    let r = gov.evaluate_proposal(&proposal("arena", &["a"], (1, 2), 0), &outcome(60, 40, 0), 5);
    assert!(matches!(r, Ok(None)));
}

#[test]
fn rate_limit_rejection() {
    // Restricting five of ten exceeds a per-turn cap of two fifths.
    let mut gov = CapabilityGovernance::new(constitution(2, (2, 5), (1, 2), false, &[]));
    gov.upsert_domain(domain(
        "arena",
        &["a", "b", "c", "d", "e", "f", "g", "h", "i", "j"],
        2,
    ));
    let r = gov.evaluate_proposal(
        &proposal("arena", &["a", "b", "c", "d", "e"], (1, 2), 0),
        &outcome(99, 1, 0),
        5,
    );
    assert!(matches!(r, Err(GovernanceError::RestrictionRateExceeded)));
}

#[test]
fn global_floor_rejection() {
    // The domain tolerates one enabled capability, the constitution demands
    // three.
    let mut gov = CapabilityGovernance::new(constitution(3, (1, 1), (1, 2), false, &[]));
    gov.upsert_domain(domain("arena", &["a", "b", "c", "d"], 1));
    let r = gov.evaluate_proposal(&proposal("arena", &["a", "b"], (1, 2), 0), &outcome(9, 1, 0), 5);
    assert!(matches!(r, Err(GovernanceError::GlobalFloorViolated)));
}

#[test]
fn hard_protect_keeps_baseline_out_of_disabled() {
    // The restriction names a globally non-restrictable capability; the
    // proposal still applies, but that capability never enters the disabled
    // set.
    let mut gov = CapabilityGovernance::new(constitution(1, (1, 1), (1, 2), true, &["safe"]));
    gov.upsert_domain(domain("arena", &["safe", "a", "b", "c"], 1));
    let r = gov.evaluate_proposal(&proposal("arena", &["safe", "a"], (1, 2), 0), &outcome(9, 1, 0), 5);
    let state = r.expect("accepted").expect("applied");
    assert!(!state.disabled_capabilities.contains_id(&CapabilityId("safe".to_string())));
    assert!(state.disabled_capabilities.contains_id(&CapabilityId("a".to_string())));
    assert_eq!(state.disabled_capabilities.len(), 1);
}

fn state_summary(s: &DomainState, names: &[&str]) -> (usize, Vec<bool>) {
    (
        s.disabled_capabilities.len(),
        names
            .iter()
            .map(|n| s.disabled_capabilities.contains_id(&CapabilityId((*n).to_string())))
            .collect(),
    )
}

#[test]
fn evaluation_is_deterministic() {
    // Two evaluations of identical inputs against an unchanged engine give
    // the same answer.
    let mut gov = CapabilityGovernance::new(constitution(1, (1, 1), (1, 2), true, &["safe"]));
    gov.upsert_domain(domain("arena", &["safe", "a", "b", "c"], 1));
    let p = proposal("arena", &["a", "b"], (1, 2), 0);
    let o = outcome(9, 1, 0);
    let names = ["safe", "a", "b", "c"];
    let r1 = gov.evaluate_proposal(&p, &o, 5);
    let r2 = gov.evaluate_proposal(&p, &o, 5);
    let s1 = r1.expect("accepted").expect("applied");
    let s2 = r2.expect("accepted").expect("applied");
    assert_eq!(state_summary(&s1, &names), state_summary(&s2, &names));
}

#[test]
fn floor_holds_across_a_sequence_of_proposals() {
    // Whatever sequence of proposals is applied, the enabled count never
    // drops below the larger of the two floors (here four).
    let mut gov = CapabilityGovernance::new(constitution(4, (1, 1), (1, 2), false, &[]));
    gov.upsert_domain(domain(
        "arena",
        &["a", "b", "c", "d", "e", "f", "g", "h"],
        3,
    ));
    let restrictions: [&[&str]; 3] = [&["a", "b"], &["a", "b", "c", "d"], &["a", "b", "c", "d", "e"]];
    let mut applied = 0;
    for restrict in restrictions {
        let r = gov.evaluate_proposal(&proposal("arena", restrict, (1, 2), 0), &outcome(9, 1, 0), 5);
        match r {
            Ok(Some(new_state)) => {
                let enabled =
                    new_state.domain.allowed_capabilities.len() - new_state.disabled_capabilities.len();
                assert!(enabled >= 4);
                applied += 1;
            }
            Ok(None) => panic!("vote clears every bar"),
            Err(e) => {
                // The last restriction would leave only three enabled,
                // under the global floor: it must be rejected, never
                // applied.
                assert!(matches!(e, GovernanceError::GlobalFloorViolated));
            }
        }
    }
    assert_eq!(applied, 2);
}

#[test]
fn upsert_preserves_disabled_set_and_get_reads_back() {
    let mut gov = CapabilityGovernance::new(constitution(0, (1, 1), (1, 2), false, &[]));
    gov.upsert_domain(domain("arena", &["a", "b"], 0));
    assert!(gov.get_domain_state("arena").is_some());
    assert!(gov.get_domain_state("elsewhere").is_none());
    // Redefining the domain keeps its identity and replaces the definition.
    gov.upsert_domain(domain("arena", &["a", "b", "c"], 1));
    let s = gov.get_domain_state("arena").unwrap();
    assert_eq!(s.domain.allowed_capabilities.len(), 3);
    assert_eq!(s.domain.min_capability_count, 1);
    assert_eq!(s.disabled_capabilities.len(), 0);
}

#[test]
fn empty_domain_fails_positive_floor() {
    // An empty domain has an enabled count of zero and fails any positive
    // floor; with zero floors a restriction of nothing applies vacuously.
    let mut gov = CapabilityGovernance::new(constitution(1, (1, 1), (1, 2), false, &[]));
    gov.upsert_domain(domain("void", &[], 0));
    let r = gov.evaluate_proposal(&proposal("void", &[], (1, 2), 0), &outcome(9, 1, 0), 5);
    assert!(matches!(r, Err(GovernanceError::GlobalFloorViolated)));
}

#[test]
fn rejection_reasons_are_stable_text() {
    assert_eq!(GovernanceError::UnknownDomain.reason(), "unknown domain identifier");
    assert_eq!(
        GovernanceError::DomainFloorViolated.reason(),
        "proposal would violate the domain capability floor"
    );
    assert_eq!(
        GovernanceError::GlobalFloorViolated.reason(),
        "proposal would violate the global capability floor"
    );
    assert_eq!(
        GovernanceError::RestrictionRateExceeded.reason(),
        "proposal exceeds the per-turn restriction fraction"
    );
}
