use capgov::AttestationId;
use capgov::ConsentRecord;
use capgov::ConsentRegistry;
use capgov::Did;
use capgov::MicroMissionsEngine;
use capgov::MissionId;
use capgov::MissionTemplate;
use capgov::PlanetaryLedger;
use capgov::SaepConfig;
use capgov::SaepEngine;
use capgov::StewardModule;
use capgov::StewardshipError;
use capgov::ledger::ImpactMetrics;

fn metrics() -> ImpactMetrics {
    ImpactMetrics {
        co2eq_reduced: 1_500,
        biodiversity_index_delta: 20,
        restored_area_m2: 500_000,
        avoided_emissions_co2eq: 800,
    }
}

fn consent_for(did: &str, module: StewardModule, mission: Option<&str>) -> ConsentRegistry {
    let mut reg = ConsentRegistry::new();
    reg.upsert_consent(ConsentRecord {
        participant: Did(did.to_string()),
        module,
        mission: mission.map(|m| MissionId(m.to_string())),
        consent_given: true,
        timestamp_ms: 1,
        evidence_uri: Some("ipfs://evidence".to_string()),
    });
    reg
}

fn ledger(consent: ConsentRegistry) -> PlanetaryLedger {
    PlanetaryLedger::new(SaepEngine::new(SaepConfig::default()), consent)
}

fn issue(
    ledger: &mut PlanetaryLedger,
    actor: &str,
    description: &str,
) -> Result<capgov::StewardshipAttestation, StewardshipError> {
    ledger.issue_attestation(
        Did(actor.to_string()),
        None,
        description.to_string(),
        metrics(),
        "ipfs://evidence".to_string(),
        vec![Did("did:example:verifier".to_string())],
        42,
    )
}

#[test]
fn attestation_is_issued_with_consent() {
    let mut l = ledger(consent_for("did:example:ada", StewardModule::PLGA, None));
    let att = issue(&mut l, "did:example:ada", "restored a wetland").expect("issues");
    assert_eq!(att.actor_did.0, "did:example:ada");
    assert_eq!(att.description, "restored a wetland");
    assert_eq!(att.visible_symbol, "STWD");
    assert_eq!(att.timestamp_ms, 42);
    assert_eq!(att.id.0.len(), 36);
    assert_eq!(att.impact_metrics, metrics());
}

#[test]
fn attestation_without_consent_is_refused() {
    let mut l = ledger(ConsentRegistry::new());
    let r = issue(&mut l, "did:example:ada", "restored a wetland");
    assert!(matches!(r, Err(StewardshipError::ConsentMissing)));
    assert!(l.get_attestations_for_actor(&Did("did:example:ada".to_string())).is_empty());
}

#[test]
fn attestation_with_harmful_description_is_vetoed() {
    // The veto fires before the consent gate and regardless of it.
    let mut l = ledger(consent_for("did:example:ada", StewardModule::PLGA, None));
    let r = issue(&mut l, "did:example:ada", "cleaned up a weapon range");
    assert!(matches!(r, Err(StewardshipError::EthicsVeto(_))));
}

#[test]
fn attestations_filter_by_actor_in_order() {
    let mut reg = consent_for("did:a", StewardModule::PLGA, None);
    reg.upsert_consent(ConsentRecord {
        participant: Did("did:b".to_string()),
        module: StewardModule::PLGA,
        mission: None,
        consent_given: true,
        timestamp_ms: 1,
        evidence_uri: None,
    });
    let mut l = ledger(reg);
    issue(&mut l, "did:a", "first deed").unwrap();
    issue(&mut l, "did:b", "other actor's deed").unwrap();
    issue(&mut l, "did:a", "second deed").unwrap();
    let for_a = l.get_attestations_for_actor(&Did("did:a".to_string()));
    assert_eq!(for_a.len(), 2);
    assert_eq!(for_a[0].description, "first deed");
    assert_eq!(for_a[1].description, "second deed");
    assert!(l.get_attestations_for_actor(&Did("did:c".to_string())).is_empty());
}

#[test]
fn ledger_refuses_transfer() {
    let l = ledger(ConsentRegistry::new());
    let r = l.forbid_transfer(
        &AttestationId("any".to_string()),
        &Did("did:example:bob".to_string()),
    );
    assert_eq!(r, Err("stewardship attestations are non-transferable and non-speculative"));
}

fn template(id: &str, description: &str) -> MissionTemplate {
    MissionTemplate {
        id: MissionId(id.to_string()),
        title: "a mission".to_string(),
        description: description.to_string(),
        difficulty: "S".to_string(),
        expected_impact: serde_json::Value::Null,
        location_hint: "virtual".to_string(),
        required_skills: vec!["observation".to_string()],
    }
}

#[test]
fn mission_assignment_needs_known_template() {
    let mut e = MicroMissionsEngine::new(SaepEngine::new(SaepConfig::default()), ConsentRegistry::new());
    let r = e.assign_mission(&MissionId("m1".to_string()), Did("did:a".to_string()), 7);
    assert!(matches!(r, Err(StewardshipError::UnknownTemplate)));
}

#[test]
fn mission_assignment_with_consent_succeeds() {
    let consent = consent_for("did:a", StewardModule::MME, Some("m1"));
    let mut e = MicroMissionsEngine::new(SaepEngine::new(SaepConfig::default()), consent);
    e.add_template(template("m1", "map invasive species"));
    let a = e.assign_mission(&MissionId("m1".to_string()), Did("did:a".to_string()), 7).expect("assigns");
    assert_eq!(a.mission.id.0, "m1");
    assert_eq!(a.assignee.0, "did:a");
    assert_eq!(a.assigned_ts_ms, 7);
}

#[test]
fn mission_assignment_without_consent_is_refused() {
    let mut e = MicroMissionsEngine::new(SaepEngine::new(SaepConfig::default()), ConsentRegistry::new());
    e.add_template(template("m1", "map invasive species"));
    let r = e.assign_mission(&MissionId("m1".to_string()), Did("did:a".to_string()), 7);
    assert!(matches!(r, Err(StewardshipError::ConsentMissing)));
}

#[test]
fn mission_with_coercive_description_is_vetoed() {
    let consent = consent_for("did:a", StewardModule::MME, Some("m1"));
    let mut e = MicroMissionsEngine::new(SaepEngine::new(SaepConfig::default()), consent);
    e.add_template(template("m1", "a Coercive enrollment drive"));
    let r = e.assign_mission(&MissionId("m1".to_string()), Did("did:a".to_string()), 7);
    assert!(matches!(r, Err(StewardshipError::EthicsVeto(_))));
}

#[test]
fn adding_a_template_twice_replaces_it() {
    let consent = consent_for("did:a", StewardModule::MME, Some("m1"));
    let mut e = MicroMissionsEngine::new(SaepEngine::new(SaepConfig::default()), consent);
    e.add_template(template("m1", "a Coercive enrollment drive"));
    e.add_template(template("m1", "a voluntary enrollment drive"));
    let a = e.assign_mission(&MissionId("m1".to_string()), Did("did:a".to_string()), 7).expect("assigns");
    assert_eq!(a.mission.description, "a voluntary enrollment drive");
}

#[test]
fn stewardship_reasons_are_stable_text() {
    assert_eq!(
        StewardshipError::EthicsVeto(Vec::new()).reason(),
        "ethics kernel blocked the action"
    );
    assert_eq!(
        StewardshipError::ConsentMissing.reason(),
        "no valid consent recorded for this action"
    );
    assert_eq!(StewardshipError::UnknownTemplate.reason(), "unknown mission template");
}
