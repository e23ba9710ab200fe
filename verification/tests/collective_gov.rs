use capgov::CollectiveError;
use capgov::Did;
use capgov::GovernanceEngine;
use capgov::GovernanceScope;
use capgov::ModuleId;
use capgov::QuadraticOutcome;
use capgov::QuadraticVote;
use capgov::SaepConfig;
use capgov::SaepEngine;
use capgov::collective::GovernanceProposal;

fn engine() -> GovernanceEngine {
    GovernanceEngine::new(SaepEngine::new(SaepConfig::default()))
}

fn proposal(scope: GovernanceScope, description: &str, restrictions: bool) -> GovernanceProposal {
    GovernanceProposal {
        proposal_id: "p1".to_string(),
        scope,
        title: "a proposal".to_string(),
        description: description.to_string(),
        payload: serde_json::Value::Null,
        can_introduce_restrictions: restrictions,
    }
}

fn vote(who: &str, weight: u64, support: bool) -> QuadraticVote {
    QuadraticVote { voter: Did(who.to_string()), effective_weight: weight, support }
}

fn tally(support: u128, opposition: u128) -> QuadraticOutcome {
    QuadraticOutcome {
        proposal_id: "p1".to_string(),
        total_support: support,
        total_opposition: opposition,
    }
}

#[test]
fn tally_sums_each_side_exactly() {
    let e = engine();
    let votes = vec![
        vote("a", 4, true),
        vote("b", 9, false),
        vote("c", 1, true),
        vote("d", 0, true),
        vote("e", 7, false),
    ];
    let t = e.tally_quadratic("p1", &votes);
    assert_eq!(t.proposal_id, "p1");
    assert_eq!(t.total_support, 5);
    assert_eq!(t.total_opposition, 16);
}

#[test]
fn tally_of_no_votes_is_zero() {
    let e = engine();
    let t = e.tally_quadratic("p1", &[]);
    assert_eq!(t.total_support, 0);
    assert_eq!(t.total_opposition, 0);
}

#[test]
fn no_majority_means_no_application() {
    let e = engine();
    let p = proposal(GovernanceScope::EcosystemWide, "improve the commons", false);
    assert_eq!(e.can_apply_proposal(&p, &tally(5, 5)), Ok(false));
    assert_eq!(e.can_apply_proposal(&p, &tally(4, 5)), Ok(false));
}

#[test]
fn supported_harmless_proposal_applies() {
    let e = engine();
    let p = proposal(
        GovernanceScope::Module(ModuleId("PLGA".to_string())),
        "expand habitat restoration missions",
        false,
    );
    assert_eq!(e.can_apply_proposal(&p, &tally(6, 5)), Ok(true));
}

#[test]
fn ethics_veto_beats_any_majority() {
    let e = engine();
    let p = proposal(GovernanceScope::EcosystemWide, "Fund a Weapon prototype", false);
    match e.can_apply_proposal(&p, &tally(1000, 0)) {
        Err(CollectiveError::EthicsVeto(reasons)) => {
            assert_eq!(
                reasons,
                vec!["non_harm: detected potential harmful or coercive intent".to_string()]
            );
        }
        other => panic!("expected an ethics veto, got {:?}", other),
    }
}

#[test]
fn charter_blocks_militarised_restrictions_on_bound_modules() {
    // The description passes the ethics screen (no screened keyword), but
    // reads as militarised to the charter screen of a bound module.
    let e = engine();
    let p = proposal(
        GovernanceScope::Module(ModuleId("MME".to_string())),
        "restrict missions to military training grounds",
        true,
    );
    assert_eq!(e.can_apply_proposal(&p, &tally(6, 5)), Err(CollectiveError::CharterViolation));
}

#[test]
fn charter_screen_needs_restriction_capability() {
    // The same text without the power to introduce restrictions applies.
    let e = engine();
    let p = proposal(
        GovernanceScope::Module(ModuleId("MME".to_string())),
        "restrict missions to military training grounds",
        false,
    );
    assert_eq!(e.can_apply_proposal(&p, &tally(6, 5)), Ok(true));
}

#[test]
fn unrecognised_scope_maps_to_unbound_catchall() {
    // An unmapped module identifier falls back to the catch-all module,
    // which is not charter-bound, so the charter screen does not fire.
    let e = engine();
    let p = proposal(
        GovernanceScope::Module(ModuleId("XYZ".to_string())),
        "military surplus reuse",
        true,
    );
    assert_eq!(e.can_apply_proposal(&p, &tally(6, 5)), Ok(true));
}

#[test]
fn collective_reasons_are_stable_text() {
    assert_eq!(
        CollectiveError::EthicsVeto(Vec::new()).reason(),
        "ethics kernel vetoed the governance proposal"
    );
    assert_eq!(
        CollectiveError::CharterViolation.reason(),
        "charter disallows militarization or harmful use in bound modules"
    );
}
