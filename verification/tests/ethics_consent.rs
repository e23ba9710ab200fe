use capgov::ConsentRecord;
use capgov::ConsentRegistry;
use capgov::Did;
use capgov::EthicsContext;
use capgov::MissionId;
use capgov::SaepConfig;
use capgov::SaepEngine;
use capgov::StewardModule;

fn ctx(description: &str) -> EthicsContext {
    EthicsContext {
        actor: Did("did:example:ada".to_string()),
        affected_parties: Vec::new(),
        module: StewardModule::VET,
        description: description.to_string(),
        estimated_impact: serde_json::Value::Null,
    }
}

#[test]
fn harmless_action_is_allowed_with_obligations() {
    let e = SaepEngine::new(SaepConfig::default());
    let d = e.evaluate(&ctx("plant a community garden"));
    assert!(d.allowed);
    assert!(d.reasons.is_empty());
    assert!(d.require_rollback_plan);
    assert!(d.require_public_intent_log);
    assert!(d.require_consent);
}

#[test]
fn harmful_keyword_is_vetoed_case_insensitively() {
    // The screen folds case: an upper-case description must still trip it.
    // This fails if the case folding were skipped.
    let e = SaepEngine::new(SaepConfig::default());
    let d = e.evaluate(&ctx("Deploy A WEAPON Swarm"));
    assert!(!d.allowed);
    assert_eq!(
        d.reasons,
        vec!["non_harm: detected potential harmful or coercive intent".to_string()]
    );
}

#[test]
fn coercive_keyword_is_vetoed() {
    let e = SaepEngine::new(SaepConfig::default());
    let d = e.evaluate(&ctx("a subtly coercive nudge campaign"));
    assert!(!d.allowed);
}

#[test]
fn hoarding_keyword_is_vetoed() {
    let e = SaepEngine::new(SaepConfig::default());
    let d = e.evaluate(&ctx("exclusive monetization of the commons"));
    assert!(!d.allowed);
    assert_eq!(d.reasons, vec!["commons_benefit: private hoarding flagged".to_string()]);
}

#[test]
fn both_screens_can_fire_together() {
    let e = SaepEngine::new(SaepConfig::default());
    let d = e.evaluate(&ctx("weapon sales and exclusive monetization"));
    assert!(!d.allowed);
    assert_eq!(d.reasons.len(), 2);
}

#[test]
fn disabled_principles_do_not_screen() {
    let config = SaepConfig {
        enforce_non_harm: false,
        enforce_transparency: false,
        enforce_reversibility: false,
        enforce_informed_consent: false,
        enforce_commons_benefit: false,
        forbid_punitive_scoring: true,
    };
    let e = SaepEngine::new(config);
    let d = e.evaluate(&ctx("weapon and exclusive monetization"));
    assert!(d.allowed);
    assert!(d.reasons.is_empty());
    assert!(!d.require_rollback_plan);
    assert!(!d.require_public_intent_log);
    assert!(!d.require_consent);
}

fn record(did: &str, module: StewardModule, mission: Option<&str>, yes: bool) -> ConsentRecord {
    ConsentRecord {
        participant: Did(did.to_string()),
        module,
        mission: mission.map(|m| MissionId(m.to_string())),
        consent_given: yes,
        timestamp_ms: 1,
        evidence_uri: None,
    }
}

#[test]
fn consent_lookup_matches_exact_key() {
    let mut reg = ConsentRegistry::new();
    reg.upsert_consent(record("ada", StewardModule::PLGA, Some("m1"), true));
    let ada = Did("ada".to_string());
    let m1 = MissionId("m1".to_string());
    assert!(reg.has_valid_consent(&ada, StewardModule::PLGA, Some(&m1)));
    // A different module, mission, or participant does not match.
    assert!(!reg.has_valid_consent(&ada, StewardModule::MME, Some(&m1)));
    assert!(!reg.has_valid_consent(&ada, StewardModule::PLGA, None));
    assert!(!reg.has_valid_consent(&Did("bob".to_string()), StewardModule::PLGA, Some(&m1)));
}

#[test]
fn refused_consent_is_not_valid() {
    let mut reg = ConsentRegistry::new();
    reg.upsert_consent(record("ada", StewardModule::PLGA, None, false));
    assert!(!reg.has_valid_consent(&Did("ada".to_string()), StewardModule::PLGA, None));
}

#[test]
fn upsert_replaces_the_existing_record() {
    let mut reg = ConsentRegistry::new();
    reg.upsert_consent(record("ada", StewardModule::PLGA, None, true));
    assert!(reg.has_valid_consent(&Did("ada".to_string()), StewardModule::PLGA, None));
    // Consent can be withdrawn by recording a refusal under the same key.
    reg.upsert_consent(record("ada", StewardModule::PLGA, None, false));
    assert!(!reg.has_valid_consent(&Did("ada".to_string()), StewardModule::PLGA, None));
}

#[test]
fn empty_registry_has_no_consent() {
    let reg = ConsentRegistry::new();
    assert!(!reg.has_valid_consent(&Did("ada".to_string()), StewardModule::CSC, None));
}
