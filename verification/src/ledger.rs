//! The stewardship ledger and the micro-missions engine.
//!
//! The ledger issues non-transferable attestations of good actions, each
//! gated by the ethics kernel and, where demanded, by recorded consent. The
//! missions engine assigns mission templates under the same two gates.

use vstd::prelude::*;
use crate::ethics::ConsentKey;
use crate::ethics::ConsentRecordModel;
use crate::ethics::ConsentRegistry;
use crate::ethics::EthicsContext;
use crate::ethics::SaepConfig;
use crate::ethics::SaepEngine;
use crate::ethics::StewardModule;
use crate::ethics::spec_decision;
use crate::external::fresh_uuid_string;
use crate::external::impact_summary_json;
use crate::external::lower_of;
use crate::ids::AttestationId;
use crate::ids::Did;
use crate::ids::MissionId;

verus! {

/// Why an attestation or assignment was refused.
#[derive(Debug, Clone, PartialEq)]
pub enum StewardshipError {
    /// The ethics kernel vetoed the action, for these reasons.
    EthicsVeto(Vec<String>),
    /// The kernel demands consent and none is recorded.
    ConsentMissing,
    /// The referenced mission template does not exist.
    UnknownTemplate,
}

impl StewardshipError {
    /// A human-readable reason for the refusal.
    pub fn reason(&self) -> (m: &'static str)
        ensures
            *self is EthicsVeto ==> m@ == "ethics kernel blocked the action"@,
            *self is ConsentMissing ==> m@ == "no valid consent recorded for this action"@,
            *self is UnknownTemplate ==> m@ == "unknown mission template"@,
    {
        match self {
            StewardshipError::EthicsVeto(_) => "ethics kernel blocked the action",
            StewardshipError::ConsentMissing => "no valid consent recorded for this action",
            StewardshipError::UnknownTemplate => "unknown mission template",
        }
    }
}

/// Measured impact behind one attestation, in exact scaled units
/// (thousandths of each unit).
#[derive(Debug, Clone, Copy, PartialEq, Eq, Structural)]
pub struct ImpactMetrics {
    pub co2eq_reduced: i64,
    pub biodiversity_index_delta: i64,
    pub restored_area_m2: i64,
    pub avoided_emissions_co2eq: i64,
}

/// A non-transferable attestation of one actor's good action.
#[derive(Debug)]
pub struct StewardshipAttestation {
    pub id: AttestationId,
    pub actor_did: Did,
    pub mission_id: Option<MissionId>,
    pub timestamp_ms: u64,
    pub description: String,
    pub impact_metrics: ImpactMetrics,
    pub evidence_uri: String,
    pub verifier_dids: Vec<Did>,
    /// The non-speculative badge rendering.
    pub visible_symbol: String,
}

impl StewardshipAttestation {
    pub open spec fn view(&self) -> AttestationModel {
        AttestationModel {
            id: self.id@,
            actor_did: self.actor_did@,
            mission_id: match self.mission_id {
                Option::Some(ref m) => Option::Some(m@),
                Option::None => Option::None,
            },
            timestamp_ms: self.timestamp_ms,
            description: self.description@,
            impact_metrics: self.impact_metrics,
            evidence_uri: self.evidence_uri@,
            verifier_dids: self.verifier_dids@.map_values(|d: Did| d@),
            visible_symbol: self.visible_symbol@,
        }
    }
}

impl Clone for StewardshipAttestation {
    fn clone(&self) -> (r: Self)
        ensures
            r@ == self@,
    {
        let r = StewardshipAttestation {
            id: self.id.clone(),
            actor_did: self.actor_did.clone(),
            mission_id: match &self.mission_id {
                Option::Some(m) => Option::Some(m.clone()),
                Option::None => Option::None,
            },
            timestamp_ms: self.timestamp_ms,
            description: self.description.clone(),
            impact_metrics: self.impact_metrics,
            evidence_uri: self.evidence_uri.clone(),
            verifier_dids: self.verifier_dids.clone(),
            visible_symbol: self.visible_symbol.clone(),
        };
        proof {
            assert forall|j: int| 0 <= j < self.verifier_dids@.len() implies r.verifier_dids@[j]@
                == self.verifier_dids@[j]@ by {
                assert(cloned::<Did>(self.verifier_dids@[j], r.verifier_dids@[j]));
            }
            assert(r@.verifier_dids =~= self@.verifier_dids);
        }
        r
    }
}

/// The mathematical value of an attestation.
pub ghost struct AttestationModel {
    pub id: Seq<char>,
    pub actor_did: Seq<char>,
    pub mission_id: Option<Seq<char>>,
    pub timestamp_ms: u64,
    pub description: Seq<char>,
    pub impact_metrics: ImpactMetrics,
    pub evidence_uri: Seq<char>,
    pub verifier_dids: Seq<Seq<char>>,
    pub visible_symbol: Seq<char>,
}

/// The ledger of attestations: the ethics kernel, the consent registry, and
/// the append-only record of issued attestations.
pub struct PlanetaryLedger {
    saep: SaepEngine,
    consent: ConsentRegistry,
    attestations: Vec<StewardshipAttestation>,
}

impl PlanetaryLedger {
    /// The embedded kernel's configuration.
    pub closed spec fn config_spec(&self) -> SaepConfig {
        self.saep.config_spec()
    }

    /// The embedded consent registry's records.
    pub closed spec fn consent_spec(&self) -> Map<ConsentKey, ConsentRecordModel> {
        self.consent@
    }

    /// The attestations issued so far, oldest first.
    pub closed spec fn attestations_spec(&self) -> Seq<AttestationModel> {
        self.attestations@.map_values(|a: StewardshipAttestation| a@)
    }

    pub closed spec fn wf(&self) -> bool {
        self.consent.wf()
    }

    /// A fresh ledger with no attestations.
    pub fn new(saep: SaepEngine, consent: ConsentRegistry) -> (l: PlanetaryLedger)
        requires
            consent.wf(),
        ensures
            l.wf(),
            l.config_spec() == saep.config_spec(),
            l.consent_spec() == consent@,
            l.attestations_spec() == Seq::<AttestationModel>::empty(),
    {
        let l = PlanetaryLedger { saep, consent, attestations: Vec::new() };
        proof {
            assert(l.attestations_spec() =~= Seq::<AttestationModel>::empty());
        }
        l
    }

    /// Issue an attestation for one actor's action: the ethics kernel
    /// screens the description and may veto; if it demands consent, a valid
    /// consent record for the actor, the ledger's module and the mission
    /// must exist. An issued attestation is appended to the ledger and
    /// returned; a refused one changes nothing.
    pub fn issue_attestation(
        &mut self,
        actor_did: Did,
        mission_id: Option<MissionId>,
        description: String,
        impact_metrics: ImpactMetrics,
        evidence_uri: String,
        verifier_dids: Vec<Did>,
        timestamp_ms: u64,
    ) -> (r: Result<StewardshipAttestation, StewardshipError>)
        requires
            old(self).wf(),
        ensures
            final(self).wf(),
            final(self).config_spec() == old(self).config_spec(),
            final(self).consent_spec() == old(self).consent_spec(),
            ({
                let d = spec_decision(old(self).config_spec(), lower_of(description@));
                let key = (
                    actor_did@,
                    StewardModule::PLGA,
                    match mission_id {
                        Option::Some(ref m) => Option::<Seq<char>>::Some(m@),
                        Option::None => Option::<Seq<char>>::None,
                    },
                );
                let consent_ok = old(self).consent_spec().contains_key(key) && old(
                    self,
                ).consent_spec()[key].consent_given;
                &&& (r matches Result::Err(StewardshipError::EthicsVeto(rs)) ==> rs@.map_values(
                    |s: String| s@,
                ) == d.reasons)
                &&& (r matches Result::Err(StewardshipError::EthicsVeto(_))) <==> !d.allowed
                &&& (r matches Result::Err(StewardshipError::ConsentMissing)) <==> (d.allowed
                    && d.require_consent && !consent_ok)
                &&& r is Ok <==> (d.allowed && (d.require_consent ==> consent_ok))
                &&& (r is Err ==> final(self).attestations_spec() == old(
                    self,
                ).attestations_spec())
                &&& (r matches Result::Ok(att) ==> {
                    &&& att@.id.len() == 36
                    &&& att@.actor_did == actor_did@
                    &&& att@.mission_id == (match mission_id {
                        Option::Some(ref m) => Option::<Seq<char>>::Some(m@),
                        Option::None => Option::<Seq<char>>::None,
                    })
                    &&& att@.timestamp_ms == timestamp_ms
                    &&& att@.description == description@
                    &&& att@.impact_metrics == impact_metrics
                    &&& att@.evidence_uri == evidence_uri@
                    &&& att@.verifier_dids == verifier_dids@.map_values(|d2: Did| d2@)
                    &&& att@.visible_symbol == "STWD"@
                    &&& final(self).attestations_spec() == old(self).attestations_spec().push(
                        att@,
                    )
                })
            }),
    {
        let ctx = EthicsContext {
            actor: actor_did.clone(),
            affected_parties: Vec::new(),
            module: StewardModule::PLGA,
            description: description.clone(),
            estimated_impact: impact_summary_json(
                impact_metrics.co2eq_reduced,
                impact_metrics.biodiversity_index_delta,
            ),
        };
        let decision = self.saep.evaluate(&ctx);
        if !decision.allowed {
            return Result::Err(StewardshipError::EthicsVeto(decision.reasons));
        }

        if decision.require_consent {
            let mission_ref = match &mission_id {
                Option::Some(m) => Option::Some(m),
                Option::None => Option::None,
            };
            if !self.consent.has_valid_consent(&actor_did, StewardModule::PLGA, mission_ref) {
                return Result::Err(StewardshipError::ConsentMissing);
            }
        }

        let att_id = AttestationId(fresh_uuid_string());
        let att = StewardshipAttestation {
            id: att_id,
            actor_did,
            mission_id,
            timestamp_ms,
            description,
            impact_metrics,
            evidence_uri,
            verifier_dids,
            visible_symbol: "STWD".to_owned(),
        };
        let returned = att.clone();
        self.attestations.push(att);
        proof {
            assert(self.attestations_spec() =~= old(self).attestations_spec().push(returned@));
        }
        Result::Ok(returned)
    }

    /// All attestations issued for one actor, oldest first.
    pub fn get_attestations_for_actor(&self, actor: &Did) -> (r: Vec<&StewardshipAttestation>)
        ensures
            r@.map_values(|a: &StewardshipAttestation| a@) == self.attestations_spec().filter(
                |m: AttestationModel| m.actor_did == actor@,
            ),
    {
        let ghost pred = |m: AttestationModel| m.actor_did == actor@;
        let n = self.attestations.len();
        let mut r: Vec<&StewardshipAttestation> = Vec::new();
        let mut i: usize = 0;
        proof {
            assert(self.attestations_spec().take(0).filter(pred) =~= Seq::<
                AttestationModel,
            >::empty());
            assert(r@.map_values(|a: &StewardshipAttestation| a@) =~= Seq::<
                AttestationModel,
            >::empty());
        }
        while i < n
            invariant
                n == self.attestations@.len(),
                i <= n,
                pred == (|m: AttestationModel| m.actor_did == actor@),
                r@.map_values(|a: &StewardshipAttestation| a@) == self.attestations_spec().take(
                    i as int,
                ).filter(pred),
            decreases n - i,
        {
            let ghost prefix = self.attestations_spec().take(i as int);
            let ghost next = self.attestations_spec().take(i + 1);
            proof {
                assert(next.drop_last() =~= prefix);
                assert(next.last() == self.attestations@[i as int]@);
                reveal_with_fuel(Seq::filter, 2);
            }
            let a = &self.attestations[i];
            if a.actor_did.eq_id(actor) {
                r.push(a);
                proof {
                    assert(r@.map_values(|x: &StewardshipAttestation| x@) =~= next.filter(pred));
                }
            } else {
                proof {
                    assert(r@.map_values(|x: &StewardshipAttestation| x@) =~= next.filter(pred));
                }
            }
            i += 1;
        }
        proof {
            assert(self.attestations_spec().take(n as int) =~= self.attestations_spec());
        }
        r
    }

    /// Attestations are non-transferable and non-speculative: any attempted
    /// transfer is refused.
    pub fn forbid_transfer(&self, _attestation_id: &AttestationId, _to: &Did) -> (r: Result<
        (),
        &'static str,
    >)
        ensures
            r matches Result::Err(m) && m@
                == "stewardship attestations are non-transferable and non-speculative"@,
    {
        Result::Err("stewardship attestations are non-transferable and non-speculative")
    }
}

/// A mission template in the catalog.
#[derive(Debug)]
pub struct MissionTemplate {
    pub id: MissionId,
    pub title: String,
    pub description: String,
    /// A difficulty label such as a size code.
    pub difficulty: String,
    /// An opaque impact model, carried but not read by the engine.
    pub expected_impact: serde_json::Value,
    /// Where the mission happens: a place or a virtual venue.
    pub location_hint: String,
    pub required_skills: Vec<String>,
}

impl MissionTemplate {
    pub open spec fn view(&self) -> MissionTemplateModel {
        MissionTemplateModel {
            id: self.id@,
            title: self.title@,
            description: self.description@,
            difficulty: self.difficulty@,
            location_hint: self.location_hint@,
            required_skills: self.required_skills@.map_values(|s: String| s@),
        }
    }
}

impl Clone for MissionTemplate {
    fn clone(&self) -> (r: Self)
        ensures
            r@ == self@,
    {
        let r = MissionTemplate {
            id: self.id.clone(),
            title: self.title.clone(),
            description: self.description.clone(),
            difficulty: self.difficulty.clone(),
            expected_impact: self.expected_impact.clone(),
            location_hint: self.location_hint.clone(),
            required_skills: self.required_skills.clone(),
        };
        proof {
            assert forall|j: int| 0 <= j < self.required_skills@.len()
                implies r.required_skills@[j]@ == self.required_skills@[j]@ by {
                assert(cloned::<String>(self.required_skills@[j], r.required_skills@[j]));
            }
            assert(r@.required_skills =~= self@.required_skills);
        }
        r
    }
}

/// The mathematical value of a template; the impact payload is opaque.
pub ghost struct MissionTemplateModel {
    pub id: Seq<char>,
    pub title: Seq<char>,
    pub description: Seq<char>,
    pub difficulty: Seq<char>,
    pub location_hint: Seq<char>,
    pub required_skills: Seq<Seq<char>>,
}

/// One mission handed to one assignee.
#[derive(Debug)]
pub struct AssignedMission {
    pub mission: MissionTemplate,
    pub assignee: Did,
    pub assigned_ts_ms: u64,
}

impl AssignedMission {
    pub open spec fn view(&self) -> AssignedMissionModel {
        AssignedMissionModel {
            mission: self.mission@,
            assignee: self.assignee@,
            assigned_ts_ms: self.assigned_ts_ms,
        }
    }
}

impl Clone for AssignedMission {
    fn clone(&self) -> (r: Self)
        ensures
            r@ == self@,
    {
        AssignedMission {
            mission: self.mission.clone(),
            assignee: self.assignee.clone(),
            assigned_ts_ms: self.assigned_ts_ms,
        }
    }
}

/// The mathematical value of an assignment.
pub ghost struct AssignedMissionModel {
    pub mission: MissionTemplateModel,
    pub assignee: Seq<char>,
    pub assigned_ts_ms: u64,
}

/// Which identifiers the stored templates carry, in storage order.
pub open spec fn template_ids_of(s: Seq<MissionTemplate>) -> Seq<Seq<char>> {
    s.map_values(|t: MissionTemplate| t.id@)
}

/// The index at which the template with identifier `k` is stored.
pub closed spec fn template_index_of(s: Seq<MissionTemplate>, k: Seq<char>) -> int {
    choose|i: int| 0 <= i < s.len() && s[i].id@ == k
}

/// The catalog map the stored templates denote.
pub closed spec fn templates_map_of(s: Seq<MissionTemplate>) -> Map<Seq<char>, MissionTemplateModel> {
    Map::new(
        |k: Seq<char>| exists|i: int| 0 <= i < s.len() && (#[trigger] s[i]).id@ == k,
        |k: Seq<char>| s[template_index_of(s, k)]@,
    )
}

/// How template storage relates to the catalog map.
pub proof fn lemma_templates_map(s: Seq<MissionTemplate>)
    ensures
        forall|k: Seq<char>|
            templates_map_of(s).contains_key(k) <==> exists|i: int|
                0 <= i < s.len() && (#[trigger] s[i]).id@ == k,
        template_ids_of(s).no_duplicates() ==> forall|i: int|
            0 <= i < s.len() ==> templates_map_of(s)[(#[trigger] s[i]).id@] == s[i]@,
{
    if template_ids_of(s).no_duplicates() {
        assert forall|i: int| 0 <= i < s.len() implies templates_map_of(s)[(#[trigger] s[i]).id@]
            == s[i]@ by {
            let k = s[i].id@;
            let j = template_index_of(s, k);
            assert(0 <= j < s.len() && s[j].id@ == k);
            assert(template_ids_of(s)[i] == k && template_ids_of(s)[j] == k);
        };
    }
}

/// The micro-missions engine: the ethics kernel, the consent registry, the
/// template catalog, and the active assignments.
pub struct MicroMissionsEngine {
    saep: SaepEngine,
    consent: ConsentRegistry,
    templates: Vec<MissionTemplate>,
    active_assignments: Vec<AssignedMission>,
}

impl MicroMissionsEngine {
    /// The embedded kernel's configuration.
    pub closed spec fn config_spec(&self) -> SaepConfig {
        self.saep.config_spec()
    }

    /// The embedded consent registry's records.
    pub closed spec fn consent_spec(&self) -> Map<ConsentKey, ConsentRecordModel> {
        self.consent@
    }

    /// The template catalog, keyed by mission identifier.
    pub closed spec fn templates_spec(&self) -> Map<Seq<char>, MissionTemplateModel> {
        templates_map_of(self.templates@)
    }

    /// The assignments made so far, oldest first.
    pub closed spec fn assignments_spec(&self) -> Seq<AssignedMissionModel> {
        self.active_assignments@.map_values(|a: AssignedMission| a@)
    }

    pub closed spec fn wf(&self) -> bool {
        &&& self.consent.wf()
        &&& template_ids_of(self.templates@).no_duplicates()
    }

    /// A fresh engine with an empty catalog and no assignments.
    pub fn new(saep: SaepEngine, consent: ConsentRegistry) -> (e: MicroMissionsEngine)
        requires
            consent.wf(),
        ensures
            e.wf(),
            e.config_spec() == saep.config_spec(),
            e.consent_spec() == consent@,
            e.templates_spec() == Map::<Seq<char>, MissionTemplateModel>::empty(),
            e.assignments_spec() == Seq::<AssignedMissionModel>::empty(),
    {
        let e = MicroMissionsEngine {
            saep,
            consent,
            templates: Vec::new(),
            active_assignments: Vec::new(),
        };
        proof {
            assert(template_ids_of(e.templates@) =~= Seq::<Seq<char>>::empty());
            assert(e.templates_spec() =~= Map::<Seq<char>, MissionTemplateModel>::empty());
            assert(e.assignments_spec() =~= Seq::<AssignedMissionModel>::empty());
        }
        e
    }

    /// The position of the template with the given identifier, if stored.
    fn find_template(&self, id: &MissionId) -> (r: Option<usize>)
        ensures
            match r {
                Option::Some(i) => i < self.templates@.len() && self.templates@[i as int].id@
                    == id@,
                Option::None => !self.templates_spec().contains_key(id@),
            },
    {
        proof {
            lemma_templates_map(self.templates@);
        }
        let n = self.templates.len();
        let mut i: usize = 0;
        while i < n
            invariant
                n == self.templates@.len(),
                i <= n,
                forall|j: int| 0 <= j < i ==> (#[trigger] self.templates@[j]).id@ != id@,
            decreases n - i,
        {
            if self.templates[i].id.eq_id(id) {
                return Option::Some(i);
            }
            i += 1;
        }
        Option::None
    }

    /// Add a template to the catalog, or replace the one with the same
    /// identifier.
    pub fn add_template(&mut self, tpl: MissionTemplate)
        requires
            old(self).wf(),
        ensures
            final(self).wf(),
            final(self).config_spec() == old(self).config_spec(),
            final(self).consent_spec() == old(self).consent_spec(),
            final(self).assignments_spec() == old(self).assignments_spec(),
            final(self).templates_spec() == old(self).templates_spec().insert(tpl.id@, tpl@),
    {
        proof {
            lemma_templates_map(self.templates@);
        }
        let ghost pre = self.templates@;
        let found = self.find_template(&tpl.id);
        match found {
            Option::Some(i) => {
                self.templates.remove(i);
                self.templates.insert(i, tpl);
                proof {
                    let post = self.templates@;
                    assert(post =~= pre.update(i as int, post[i as int]));
                    assert(template_ids_of(post) =~= template_ids_of(pre));
                    lemma_templates_map(post);
                    let target = old(self).templates_spec().insert(
                        post[i as int].id@,
                        post[i as int]@,
                    );
                    assert forall|k: Seq<char>| #[trigger] templates_map_of(post).contains_key(k)
                        implies target.contains_key(k) by {
                        let j = choose|j: int| 0 <= j < post.len() && post[j].id@ == k;
                        if j != i {
                            assert(pre[j].id@ == k);
                        }
                    };
                    assert forall|k: Seq<char>| #[trigger] target.contains_key(k)
                        implies templates_map_of(post).contains_key(k) by {
                        if k != post[i as int].id@ {
                            let j = choose|j: int| 0 <= j < pre.len() && pre[j].id@ == k;
                            assert(post[j].id@ == k);
                        }
                    };
                    assert forall|k: Seq<char>| #[trigger] templates_map_of(post).contains_key(k)
                        implies templates_map_of(post)[k] == target[k] by {
                        let j = choose|j: int| 0 <= j < post.len() && post[j].id@ == k;
                        assert(templates_map_of(post)[post[j].id@] == post[j]@);
                        if j != i {
                            assert(pre[j].id@ == k);
                            assert(templates_map_of(pre)[pre[j].id@] == pre[j]@);
                        }
                    };
                    assert(templates_map_of(post) =~= target);
                }
            },
            Option::None => {
                let ghost key = tpl.id@;
                self.templates.push(tpl);
                proof {
                    let post = self.templates@;
                    assert(post =~= pre.push(post.last()));
                    assert(template_ids_of(post) =~= template_ids_of(pre).push(key));
                    assert forall|j: int| 0 <= j < pre.len() implies template_ids_of(pre)[j]
                        != key by {
                        if pre[j].id@ == key {
                            assert(templates_map_of(pre).contains_key(key));
                        }
                    }
                    assert(template_ids_of(post).no_duplicates());
                    lemma_templates_map(post);
                    let target = old(self).templates_spec().insert(key, post.last()@);
                    assert forall|k: Seq<char>| #[trigger] templates_map_of(post).contains_key(k)
                        implies target.contains_key(k) by {
                        let j = choose|j: int| 0 <= j < post.len() && post[j].id@ == k;
                        if j < pre.len() {
                            assert(pre[j].id@ == k);
                        }
                    };
                    assert forall|k: Seq<char>| #[trigger] target.contains_key(k)
                        implies templates_map_of(post).contains_key(k) by {
                        if k != key {
                            let j = choose|j: int| 0 <= j < pre.len() && pre[j].id@ == k;
                            assert(post[j].id@ == k);
                        }
                    };
                    assert forall|k: Seq<char>| #[trigger] templates_map_of(post).contains_key(k)
                        implies templates_map_of(post)[k] == target[k] by {
                        let j = choose|j: int| 0 <= j < post.len() && post[j].id@ == k;
                        assert(templates_map_of(post)[post[j].id@] == post[j]@);
                        if j < pre.len() {
                            assert(pre[j].id@ == k);
                            assert(templates_map_of(pre)[pre[j].id@] == pre[j]@);
                        }
                    };
                    assert(templates_map_of(post) =~= target);
                }
            },
        }
    }

    /// Assign a mission to an assignee: the template must exist, the ethics
    /// kernel screens its description and may veto, and if the kernel
    /// demands consent, a valid consent record for the assignee, the
    /// engine's module and this mission must exist. A made assignment is
    /// recorded and returned; a refused one changes nothing.
    pub fn assign_mission(&mut self, mission_id: &MissionId, assignee: Did, now_ms: u64) -> (r:
        Result<AssignedMission, StewardshipError>)
        requires
            old(self).wf(),
        ensures
            final(self).wf(),
            final(self).config_spec() == old(self).config_spec(),
            final(self).consent_spec() == old(self).consent_spec(),
            final(self).templates_spec() == old(self).templates_spec(),
            (r matches Result::Err(StewardshipError::UnknownTemplate)) <==> !old(
                self,
            ).templates_spec().contains_key(mission_id@),
            ({
                let known = old(self).templates_spec().contains_key(mission_id@);
                let tpl = old(self).templates_spec()[mission_id@];
                let d = spec_decision(old(self).config_spec(), lower_of(tpl.description));
                let key = (assignee@, StewardModule::MME, Option::<Seq<char>>::Some(mission_id@));
                let consent_ok = old(self).consent_spec().contains_key(key) && old(
                    self,
                ).consent_spec()[key].consent_given;
                &&& (r matches Result::Err(StewardshipError::EthicsVeto(rs)) ==> known
                    && rs@.map_values(|s: String| s@) == d.reasons)
                &&& (r matches Result::Err(StewardshipError::EthicsVeto(_))) <==> (known
                    && !d.allowed)
                &&& (r matches Result::Err(StewardshipError::ConsentMissing)) <==> (known
                    && d.allowed && d.require_consent && !consent_ok)
                &&& r is Ok <==> (known && d.allowed && (d.require_consent ==> consent_ok))
                &&& (r is Err ==> final(self).assignments_spec() == old(self).assignments_spec())
                &&& (r matches Result::Ok(a) ==> {
                    &&& a@.mission == tpl
                    &&& a@.assignee == assignee@
                    &&& a@.assigned_ts_ms == now_ms
                    &&& final(self).assignments_spec() == old(self).assignments_spec().push(a@)
                })
            }),
    {
        proof {
            lemma_templates_map(self.templates@);
        }
        let tidx = match self.find_template(mission_id) {
            Option::Some(i) => i,
            Option::None => {
                return Result::Err(StewardshipError::UnknownTemplate);
            },
        };
        let tpl = self.templates[tidx].clone();
        proof {
            assert(old(self).templates_spec()[mission_id@] == tpl@);
        }

        let ctx = EthicsContext {
            actor: assignee.clone(),
            affected_parties: Vec::new(),
            module: StewardModule::MME,
            description: tpl.description.clone(),
            estimated_impact: tpl.expected_impact.clone(),
        };
        let decision = self.saep.evaluate(&ctx);
        if !decision.allowed {
            return Result::Err(StewardshipError::EthicsVeto(decision.reasons));
        }

        if decision.require_consent {
            if !self.consent.has_valid_consent(
                &assignee,
                StewardModule::MME,
                Option::Some(mission_id),
            ) {
                return Result::Err(StewardshipError::ConsentMissing);
            }
        }

        let assigned = AssignedMission { mission: tpl, assignee, assigned_ts_ms: now_ms };
        let returned = assigned.clone();
        self.active_assignments.push(assigned);
        proof {
            assert(self.assignments_spec() =~= old(self).assignments_spec().push(returned@));
        }
        Result::Ok(returned)
    }
}

} // verus!
