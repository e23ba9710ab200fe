use capgov::AgentError;
use capgov::AgentId;
use capgov::CapSet;
use capgov::CapabilityClass;
use capgov::CapabilityDomain;
use capgov::CapabilityId;
use capgov::CyberneticAbility;
use capgov::ElementConfig;
use capgov::GovernanceTurnId;
use capgov::Ratio;
use capgov::RiskTier;
use capgov::TheElement;
use capgov::default_element;

fn cap_set(names: &[&str]) -> CapSet {
    let mut s = CapSet::new();
    for n in names {
        s.insert(CapabilityId((*n).to_string()));
    }
    s
}

fn ability(id: &str, requires: &[&str], opt_in: bool) -> CyberneticAbility {
    CyberneticAbility {
        id: CapabilityId(id.to_string()),
        name: id.to_string(),
        domain: CapabilityDomain::Cognitive,
        class_: CapabilityClass::Enhancement,
        risk_tier: RiskTier::Low,
        description: "test ability".to_string(),
        prerequisites: cap_set(requires),
        ai_delegable: false,
        require_explicit_opt_in: opt_in,
    }
}

fn engine(baseline: &[&str], max_frac: (u64, u64)) -> TheElement {
    TheElement::new(ElementConfig {
        global_baseline_capabilities: cap_set(baseline),
        max_restriction_fraction_per_turn: Ratio::new(max_frac.0, max_frac.1),
    })
}

fn turn() -> GovernanceTurnId {
    GovernanceTurnId("turn-1".to_string())
}

fn agent(name: &str) -> AgentId {
    AgentId(name.to_string())
}

#[test]
fn baseline_rejection_in_agent_turn() {
    // Restricting a baseline capability is rejected outright, however
    // permissive the per-turn fraction is.
    let mut e = engine(&["meta:emergency_exit"], (1, 1));
    let a = agent("ada");
    let r = e.governance_turn(&turn(), &a, &cap_set(&["meta:emergency_exit"]), &CapSet::new());
    match r {
        Err(AgentError::BaselineViolation(c)) => assert_eq!(c.0, "meta:emergency_exit"),
        other => panic!("expected a baseline violation, got {:?}", other),
    }
}

#[test]
fn self_block_beats_later_unlock() {
    // Once the agent blocks a capability, a governance turn that unlocks it
    // does not bring it back.
    let mut e = engine(&["base"], (1, 1));
    let a = agent("ada");
    e.request_block(&a, &CapabilityId("xr".to_string())).unwrap();
    e.governance_turn(&turn(), &a, &CapSet::new(), &cap_set(&["xr", "other"])).unwrap();
    let p = e.get_profile(&a).unwrap();
    assert!(!p.enabled_capabilities.contains_id(&CapabilityId("xr".to_string())));
    assert!(p.blocked_capabilities.contains_id(&CapabilityId("xr".to_string())));
    // The unlock of an unblocked capability did land.
    assert!(p.enabled_capabilities.contains_id(&CapabilityId("other".to_string())));
}

#[test]
fn self_block_beats_later_enable_request() {
    let mut e = engine(&[], (1, 1));
    e.upsert_ability(ability("xr", &[], false));
    let a = agent("ada");
    e.request_block(&a, &CapabilityId("xr".to_string())).unwrap();
    let r = e.request_enable(&a, &CapabilityId("xr".to_string()), true);
    assert_eq!(r, Err(AgentError::SelfBlocked));
}

#[test]
fn enable_unknown_capability() {
    let mut e = engine(&[], (1, 1));
    let r = e.request_enable(&agent("ada"), &CapabilityId("ghostly".to_string()), true);
    assert_eq!(r, Err(AgentError::UnknownCapability));
    // An unknown capability is refused before the engine would seed a profile.
    assert!(e.get_profile(&agent("ada")).is_none());
}

#[test]
fn enable_requires_opt_in() {
    let mut e = engine(&[], (1, 1));
    e.upsert_ability(ability("xr", &[], true));
    let a = agent("ada");
    assert_eq!(e.request_enable(&a, &CapabilityId("xr".to_string()), false), Err(AgentError::OptInRequired));
    assert_eq!(e.request_enable(&a, &CapabilityId("xr".to_string()), true), Ok(()));
    let p = e.get_profile(&a).unwrap();
    assert!(p.enabled_capabilities.contains_id(&CapabilityId("xr".to_string())));
}

#[test]
fn enable_demands_prerequisites() {
    let mut e = engine(&[], (1, 1));
    e.upsert_ability(ability("basics", &[], false));
    e.upsert_ability(ability("advanced", &["basics"], false));
    let a = agent("ada");
    let r = e.request_enable(&a, &CapabilityId("advanced".to_string()), true);
    match r {
        Err(AgentError::MissingPrerequisite(c)) => assert_eq!(c.0, "basics"),
        other => panic!("expected a missing prerequisite, got {:?}", other),
    }
    e.request_enable(&a, &CapabilityId("basics".to_string()), true).unwrap();
    assert_eq!(e.request_enable(&a, &CapabilityId("advanced".to_string()), true), Ok(()));
}

#[test]
fn first_reference_seeds_profile_with_baseline() {
    let mut e = engine(&["base1", "base2"], (1, 1));
    e.upsert_ability(ability("xr", &["base1"], false));
    let a = agent("ada");
    // The baseline prerequisites are already enabled in the seeded profile.
    assert_eq!(e.request_enable(&a, &CapabilityId("xr".to_string()), true), Ok(()));
    let p = e.get_profile(&a).unwrap();
    assert!(p.enabled_capabilities.contains_id(&CapabilityId("base1".to_string())));
    assert!(p.enabled_capabilities.contains_id(&CapabilityId("base2".to_string())));
    assert!(p.enabled_capabilities.contains_id(&CapabilityId("xr".to_string())));
}

#[test]
fn turn_rate_limit() {
    // Three enabled capabilities, a cap of a third: restricting two of them
    // exceeds the cap; restricting exactly one does not. The enabled set is
    // built through enable requests so that no baseline right is involved.
    fn setup() -> (TheElement, AgentId) {
        let mut e = engine(&[], (1, 3));
        for id in ["a", "b", "c"] {
            e.upsert_ability(ability(id, &[], false));
        }
        let a = agent("ada");
        for id in ["a", "b", "c"] {
            e.request_enable(&a, &CapabilityId(id.to_string()), true).unwrap();
        }
        (e, a)
    }
    // Restricted names not enabled for the agent do not count toward the
    // fraction.
    let (mut e1, a) = setup();
    assert_eq!(e1.governance_turn(&turn(), &a, &cap_set(&["x", "y"]), &CapSet::new()), Ok(()));
    let (mut e2, _) = setup();
    assert_eq!(
        e2.governance_turn(&turn(), &a, &cap_set(&["a", "b"]), &CapSet::new()),
        Err(AgentError::RateExceeded)
    );
    let (mut e3, _) = setup();
    assert_eq!(e3.governance_turn(&turn(), &a, &cap_set(&["a"]), &CapSet::new()), Ok(()));
    let p = e3.get_profile(&a).unwrap();
    assert!(!p.enabled_capabilities.contains_id(&CapabilityId("a".to_string())));
    assert!(p.enabled_capabilities.contains_id(&CapabilityId("b".to_string())));
}

#[test]
fn turn_on_fresh_agent_counts_against_one() {
    // A fresh profile with an empty baseline has no enabled capabilities;
    // the fraction's denominator is clamped to one, so restricting nothing
    // enabled passes even a zero-tolerance cap.
    let mut e = engine(&[], (0, 1));
    let r = e.governance_turn(&turn(), &agent("ada"), &cap_set(&["x"]), &CapSet::new());
    assert_eq!(r, Ok(()));
}

#[test]
fn default_catalog_guards_enhancements() {
    let mut e = default_element();
    let a = agent("ada");
    // Enhancements demand explicit opt-in.
    assert_eq!(
        e.request_enable(&a, &CapabilityId("cognitive:focus_enhancer".to_string()), false),
        Err(AgentError::OptInRequired)
    );
    // With opt-in, the baseline-seeded profile satisfies the prerequisites.
    assert_eq!(
        e.request_enable(&a, &CapabilityId("cognitive:focus_enhancer".to_string()), true),
        Ok(())
    );
    // The four baseline rights cannot be restricted by a turn.
    let r = e.governance_turn(
        &turn(),
        &a,
        &cap_set(&["security:neuroshield_basic"]),
        &CapSet::new(),
    );
    assert!(matches!(r, Err(AgentError::BaselineViolation(_))));
}

#[test]
fn failure_reasons_are_stable_text() {
    assert_eq!(AgentError::UnknownCapability.reason(), "unknown capability");
    assert_eq!(AgentError::OptInRequired.reason(), "explicit opt-in required for this ability");
    assert_eq!(AgentError::SelfBlocked.reason(), "agent has explicitly blocked this capability");
    assert_eq!(
        AgentError::MissingPrerequisite(CapabilityId("x".to_string())).reason(),
        "missing prerequisite capability"
    );
    assert_eq!(
        AgentError::BaselineViolation(CapabilityId("x".to_string())).reason(),
        "cannot restrict a baseline capability"
    );
    assert_eq!(
        AgentError::RateExceeded.reason(),
        "restriction exceeds the allowed per-turn fraction"
    );
}
