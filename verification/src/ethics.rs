//! The ethics kernel and the consent registry.
//!
//! The ethics kernel screens a proposed action's description against the
//! configured principles and answers with a veto or a set of obligations.
//! The consent registry records explicit consent per participant, module and
//! optional mission, and answers consent lookups.

use vstd::prelude::*;
use crate::external::lower_of;
use crate::external::lowercase;
use crate::ids::Did;
use crate::ids::MissionId;
use crate::text::contains_substring;
use crate::text::has_substring;

verus! {

/// The modules bound by stewardship policy.
#[derive(Debug, Clone, Copy, PartialEq, Eq, Hash, Structural)]
pub enum StewardModule {
    PLGA,
    MME,
    VET,
    OCG,
    DCCN,
    REBL,
    PSM,
    CSC,
}

/// A proposed action, as handed to the ethics kernel.
#[derive(Debug)]
pub struct EthicsContext {
    pub actor: Did,
    pub affected_parties: Vec<Did>,
    pub module: StewardModule,
    pub description: String,
    /// An opaque impact model, carried but not read by the kernel.
    pub estimated_impact: serde_json::Value,
}

/// The kernel's answer: a veto or permission, with reasons and obligations.
#[derive(Debug)]
pub struct EthicsDecision {
    pub allowed: bool,
    pub reasons: Vec<String>,
    pub require_rollback_plan: bool,
    pub require_public_intent_log: bool,
    pub require_consent: bool,
}

impl EthicsDecision {
    pub open spec fn view(&self) -> DecisionModel {
        DecisionModel {
            allowed: self.allowed,
            reasons: self.reasons@.map_values(|s: String| s@),
            require_rollback_plan: self.require_rollback_plan,
            require_public_intent_log: self.require_public_intent_log,
            require_consent: self.require_consent,
        }
    }
}

/// The mathematical value of a decision.
pub ghost struct DecisionModel {
    pub allowed: bool,
    pub reasons: Seq<Seq<char>>,
    pub require_rollback_plan: bool,
    pub require_public_intent_log: bool,
    pub require_consent: bool,
}

/// Which principles the kernel enforces.
#[derive(Debug, Clone, Copy, PartialEq, Eq, Structural)]
pub struct SaepConfig {
    pub enforce_non_harm: bool,
    pub enforce_transparency: bool,
    pub enforce_reversibility: bool,
    pub enforce_informed_consent: bool,
    pub enforce_commons_benefit: bool,
    /// Karma safety: no punitive scoring is ever derived from decisions.
    pub forbid_punitive_scoring: bool,
}

impl Default for SaepConfig {
    /// All principles enforced.
    fn default() -> (c: SaepConfig)
        ensures
            c.enforce_non_harm,
            c.enforce_transparency,
            c.enforce_reversibility,
            c.enforce_informed_consent,
            c.enforce_commons_benefit,
            c.forbid_punitive_scoring,
    {
        SaepConfig {
            enforce_non_harm: true,
            enforce_transparency: true,
            enforce_reversibility: true,
            enforce_informed_consent: true,
            enforce_commons_benefit: true,
            forbid_punitive_scoring: true,
        }
    }
}

/// Whether the lowercased description trips the non-harm screen.
pub open spec fn harmful_text(lower: Seq<char>) -> bool {
    has_substring(lower, "weapon"@) || has_substring(lower, "coercive"@)
}

/// Whether the lowercased description trips the commons-benefit screen.
pub open spec fn hoarding_text(lower: Seq<char>) -> bool {
    has_substring(lower, "exclusive monetization"@)
}

/// The decision the kernel returns for a configuration and the lowercased
/// description: the non-harm and commons-benefit screens each may veto and
/// add their reason, and the other principles become obligations.
pub open spec fn spec_decision(config: SaepConfig, lower: Seq<char>) -> DecisionModel {
    let non_harm_hit = config.enforce_non_harm && harmful_text(lower);
    let commons_hit = config.enforce_commons_benefit && hoarding_text(lower);
    DecisionModel {
        allowed: !non_harm_hit && !commons_hit,
        reasons: (if non_harm_hit {
            seq!["non_harm: detected potential harmful or coercive intent"@]
        } else {
            Seq::<Seq<char>>::empty()
        }) + (if commons_hit {
            seq!["commons_benefit: private hoarding flagged"@]
        } else {
            Seq::<Seq<char>>::empty()
        }),
        require_rollback_plan: config.enforce_reversibility,
        require_public_intent_log: config.enforce_transparency,
        require_consent: config.enforce_informed_consent,
    }
}

/// The ethics kernel.
pub struct SaepEngine {
    config: SaepConfig,
}

impl SaepEngine {
    /// The configuration the kernel screens against.
    pub closed spec fn config_spec(&self) -> SaepConfig {
        self.config
    }

    pub fn new(config: SaepConfig) -> (e: SaepEngine)
        ensures
            e.config_spec() == config,
    {
        SaepEngine { config }
    }

    /// Screen a proposed action. The decision depends on the configuration
    /// and the action's description alone.
    pub fn evaluate(&self, ctx: &EthicsContext) -> (d: EthicsDecision)
        ensures
            d@ == spec_decision(self.config_spec(), lower_of(ctx.description@)),
    {
        let lower = lowercase(ctx.description.as_str());
        let mut allowed = true;
        let mut reasons: Vec<String> = Vec::new();

        if self.config.enforce_non_harm {
            let risky = contains_substring(lower.as_str(), "weapon") || contains_substring(
                lower.as_str(),
                "coercive",
            );
            if risky {
                allowed = false;
                reasons.push("non_harm: detected potential harmful or coercive intent".to_owned());
            }
        }
        let require_public_intent_log = self.config.enforce_transparency;
        let require_rollback_plan = self.config.enforce_reversibility;
        let require_consent = self.config.enforce_informed_consent;
        if self.config.enforce_commons_benefit {
            if contains_substring(lower.as_str(), "exclusive monetization") {
                allowed = false;
                reasons.push("commons_benefit: private hoarding flagged".to_owned());
            }
        }
        let d = EthicsDecision {
            allowed,
            reasons,
            require_rollback_plan,
            require_public_intent_log,
            require_consent,
        };
        proof {
            assert(d@.reasons =~= spec_decision(
                self.config_spec(),
                lower_of(ctx.description@),
            ).reasons);
        }
        d
    }
}

/// One consent record: a participant's answer for a module and an optional
/// mission.
#[derive(Debug)]
pub struct ConsentRecord {
    pub participant: Did,
    pub module: StewardModule,
    pub mission: Option<MissionId>,
    pub consent_given: bool,
    pub timestamp_ms: u64,
    pub evidence_uri: Option<String>,
}

impl ConsentRecord {
    pub open spec fn view(&self) -> ConsentRecordModel {
        ConsentRecordModel {
            participant: self.participant@,
            module: self.module,
            mission: match self.mission {
                Option::Some(m) => Option::Some(m@),
                Option::None => Option::None,
            },
            consent_given: self.consent_given,
            timestamp_ms: self.timestamp_ms,
            evidence_uri: match self.evidence_uri {
                Option::Some(ref u) => Option::Some(u@),
                Option::None => Option::None,
            },
        }
    }

    /// The key this record is stored under.
    pub open spec fn key(&self) -> ConsentKey {
        (self@.participant, self@.module, self@.mission)
    }
}

/// The mathematical value of a consent record.
pub ghost struct ConsentRecordModel {
    pub participant: Seq<char>,
    pub module: StewardModule,
    pub mission: Option<Seq<char>>,
    pub consent_given: bool,
    pub timestamp_ms: u64,
    pub evidence_uri: Option<Seq<char>>,
}

/// The lookup key of a consent record.
pub type ConsentKey = (Seq<char>, StewardModule, Option<Seq<char>>);

/// Which keys the stored records carry, in storage order.
pub open spec fn consent_keys_of(s: Seq<ConsentRecord>) -> Seq<ConsentKey> {
    s.map_values(|r: ConsentRecord| r.key())
}

/// The index at which the record with key `k` is stored.
pub closed spec fn consent_index_of(s: Seq<ConsentRecord>, k: ConsentKey) -> int {
    choose|i: int| 0 <= i < s.len() && s[i].key() == k
}

/// The map the stored records denote.
pub closed spec fn consent_map_of(s: Seq<ConsentRecord>) -> Map<ConsentKey, ConsentRecordModel> {
    Map::new(
        |k: ConsentKey| exists|i: int| 0 <= i < s.len() && (#[trigger] s[i]).key() == k,
        |k: ConsentKey| s[consent_index_of(s, k)]@,
    )
}

/// How record storage relates to the map.
pub proof fn lemma_consent_map(s: Seq<ConsentRecord>)
    ensures
        forall|k: ConsentKey|
            consent_map_of(s).contains_key(k) <==> exists|i: int|
                0 <= i < s.len() && (#[trigger] s[i]).key() == k,
        consent_keys_of(s).no_duplicates() ==> forall|i: int|
            0 <= i < s.len() ==> consent_map_of(s)[(#[trigger] s[i]).key()] == s[i]@,
{
    if consent_keys_of(s).no_duplicates() {
        assert forall|i: int| 0 <= i < s.len() implies consent_map_of(s)[(#[trigger] s[i]).key()]
            == s[i]@ by {
            let k = s[i].key();
            let j = consent_index_of(s, k);
            assert(0 <= j < s.len() && s[j].key() == k);
            assert(consent_keys_of(s)[i] == k && consent_keys_of(s)[j] == k);
        };
    }
}

/// The consent registry: records keyed by participant, module and mission.
pub struct ConsentRegistry {
    records: Vec<ConsentRecord>,
}

impl ConsentRegistry {
    pub closed spec fn view(&self) -> Map<ConsentKey, ConsentRecordModel> {
        consent_map_of(self.records@)
    }

    pub closed spec fn wf(&self) -> bool {
        consent_keys_of(self.records@).no_duplicates()
    }

    /// An empty registry.
    pub fn new() -> (r: ConsentRegistry)
        ensures
            r.wf(),
            r@ == Map::<ConsentKey, ConsentRecordModel>::empty(),
    {
        let r = ConsentRegistry { records: Vec::new() };
        proof {
            assert(consent_keys_of(r.records@) =~= Seq::<ConsentKey>::empty());
            assert(r@ =~= Map::<ConsentKey, ConsentRecordModel>::empty());
        }
        r
    }

    /// The position of the record with the given key, if stored.
    fn find_record(&self, did: &Did, module: StewardModule, mission: Option<&MissionId>) -> (r:
        Option<usize>)
        ensures
            match r {
                Option::Some(i) => i < self.records@.len() && self.records@[i as int].key() == (
                    did@,
                    module,
                    match mission {
                        Option::Some(m) => Option::Some(m@),
                        Option::None => Option::<Seq<char>>::None,
                    },
                ),
                Option::None => !self@.contains_key(
                    (
                        did@,
                        module,
                        match mission {
                            Option::Some(m) => Option::Some(m@),
                            Option::None => Option::<Seq<char>>::None,
                        },
                    ),
                ),
            },
    {
        proof {
            lemma_consent_map(self.records@);
        }
        let ghost key = (
            did@,
            module,
            match mission {
                Option::Some(m) => Option::<Seq<char>>::Some(m@),
                Option::None => Option::<Seq<char>>::None,
            },
        );
        let n = self.records.len();
        let mut i: usize = 0;
        while i < n
            invariant
                n == self.records@.len(),
                i <= n,
                key == (
                    did@,
                    module,
                    match mission {
                        Option::Some(m) => Option::<Seq<char>>::Some(m@),
                        Option::None => Option::<Seq<char>>::None,
                    },
                ),
                forall|j: int| 0 <= j < i ==> (#[trigger] self.records@[j]).key() != key,
            decreases n - i,
        {
            let rec = &self.records[i];
            let did_match = rec.participant.eq_id(did);
            let module_match = rec.module == module;
            let mission_match = match (&rec.mission, mission) {
                (Option::Some(a), Option::Some(b)) => a.eq_id(b),
                (Option::None, Option::None) => true,
                _ => false,
            };
            if did_match && module_match && mission_match {
                proof {
                    assert(self.records@[i as int].key() == key);
                }
                return Option::Some(i);
            }
            i += 1;
        }
        Option::None
    }

    /// Record or replace a participant's consent answer.
    pub fn upsert_consent(&mut self, record: ConsentRecord)
        requires
            old(self).wf(),
        ensures
            final(self).wf(),
            final(self)@ == old(self)@.insert(record.key(), record@),
    {
        proof {
            lemma_consent_map(self.records@);
        }
        let ghost pre = self.records@;
        let found = self.find_record(
            &record.participant,
            record.module,
            match &record.mission {
                Option::Some(m) => Option::Some(m),
                Option::None => Option::None,
            },
        );
        match found {
            Option::Some(i) => {
                self.records.remove(i);
                self.records.insert(i, record);
                proof {
                    let post = self.records@;
                    assert(post =~= pre.update(i as int, post[i as int]));
                    assert(consent_keys_of(post) =~= consent_keys_of(pre));
                    lemma_consent_map(post);
                    let target = old(self)@.insert(post[i as int].key(), post[i as int]@);
                    assert forall|k: ConsentKey| #[trigger] consent_map_of(post).contains_key(k)
                        implies target.contains_key(k) by {
                        let j = choose|j: int| 0 <= j < post.len() && post[j].key() == k;
                        if j != i {
                            assert(pre[j].key() == k);
                        }
                    };
                    assert forall|k: ConsentKey| #[trigger] target.contains_key(k)
                        implies consent_map_of(post).contains_key(k) by {
                        if k != post[i as int].key() {
                            let j = choose|j: int| 0 <= j < pre.len() && pre[j].key() == k;
                            assert(post[j].key() == k);
                        }
                    };
                    assert forall|k: ConsentKey| #[trigger] consent_map_of(post).contains_key(k)
                        implies consent_map_of(post)[k] == target[k] by {
                        let j = choose|j: int| 0 <= j < post.len() && post[j].key() == k;
                        assert(consent_map_of(post)[post[j].key()] == post[j]@);
                        if j != i {
                            assert(pre[j].key() == k);
                            assert(consent_map_of(pre)[pre[j].key()] == pre[j]@);
                        }
                    };
                    assert(consent_map_of(post) =~= target);
                }
            },
            Option::None => {
                let ghost key = record.key();
                self.records.push(record);
                proof {
                    let post = self.records@;
                    assert(post =~= pre.push(post.last()));
                    assert(consent_keys_of(post) =~= consent_keys_of(pre).push(key));
                    assert forall|j: int| 0 <= j < pre.len() implies consent_keys_of(pre)[j]
                        != key by {
                        if pre[j].key() == key {
                            assert(consent_map_of(pre).contains_key(key));
                        }
                    }
                    assert(consent_keys_of(post).no_duplicates());
                    lemma_consent_map(post);
                    let target = old(self)@.insert(key, post.last()@);
                    assert forall|k: ConsentKey| #[trigger] consent_map_of(post).contains_key(k)
                        implies target.contains_key(k) by {
                        let j = choose|j: int| 0 <= j < post.len() && post[j].key() == k;
                        if j < pre.len() {
                            assert(pre[j].key() == k);
                        }
                    };
                    assert forall|k: ConsentKey| #[trigger] target.contains_key(k)
                        implies consent_map_of(post).contains_key(k) by {
                        if k != key {
                            let j = choose|j: int| 0 <= j < pre.len() && pre[j].key() == k;
                            assert(post[j].key() == k);
                        }
                    };
                    assert forall|k: ConsentKey| #[trigger] consent_map_of(post).contains_key(k)
                        implies consent_map_of(post)[k] == target[k] by {
                        let j = choose|j: int| 0 <= j < post.len() && post[j].key() == k;
                        assert(consent_map_of(post)[post[j].key()] == post[j]@);
                        if j < pre.len() {
                            assert(pre[j].key() == k);
                            assert(consent_map_of(pre)[pre[j].key()] == pre[j]@);
                        }
                    };
                    assert(consent_map_of(post) =~= target);
                }
            },
        }
    }

    /// Whether the participant has recorded valid consent for the module and
    /// mission: true exactly when a record exists and its answer is yes.
    pub fn has_valid_consent(
        &self,
        did: &Did,
        module: StewardModule,
        mission: Option<&MissionId>,
    ) -> (r: bool)
        requires
            self.wf(),
        ensures
            ({
                let key = (
                    did@,
                    module,
                    match mission {
                        Option::Some(m) => Option::<Seq<char>>::Some(m@),
                        Option::None => Option::<Seq<char>>::None,
                    },
                );
                r == (self@.contains_key(key) && self@[key].consent_given)
            }),
    {
        proof {
            lemma_consent_map(self.records@);
        }
        match self.find_record(did, module, mission) {
            Option::Some(i) => self.records[i].consent_given,
            Option::None => false,
        }
    }
}

} // verus!
