//! Collective governance over stewardship modules: quadratic vote tallies
//! and the guard that decides whether a supported proposal may apply.

use vstd::prelude::*;
use vstd::arithmetic::mul::lemma_mul_inequality;
use crate::ethics::EthicsContext;
use crate::ethics::SaepEngine;
use crate::ethics::StewardModule;
use crate::ethics::spec_decision;
use crate::external::lower_of;
use crate::external::lowercase;
use crate::ids::Did;
use crate::ids::ModuleId;
use crate::text::contains_substring;
use crate::text::has_substring;
use crate::text::str_eq;

verus! {

/// What a proposal governs: one module, or the whole ecosystem.
#[derive(Debug)]
pub enum GovernanceScope {
    Module(ModuleId),
    EcosystemWide,
}

impl GovernanceScope {
    pub open spec fn view(&self) -> ScopeModel {
        match self {
            GovernanceScope::Module(mid) => ScopeModel::Module(mid@),
            GovernanceScope::EcosystemWide => ScopeModel::EcosystemWide,
        }
    }
}

/// The mathematical value of a scope.
pub ghost enum ScopeModel {
    Module(Seq<char>),
    EcosystemWide,
}

/// A collective governance proposal.
#[derive(Debug)]
pub struct GovernanceProposal {
    pub proposal_id: String,
    pub scope: GovernanceScope,
    pub title: String,
    pub description: String,
    /// A domain-specific payload, carried as an opaque JSON value.
    pub payload: serde_json::Value,
    /// Whether the proposal may introduce restrictions; such proposals face
    /// the charter screen.
    pub can_introduce_restrictions: bool,
}

impl GovernanceProposal {
    pub open spec fn view(&self) -> CollectiveProposalModel {
        CollectiveProposalModel {
            proposal_id: self.proposal_id@,
            scope: self.scope@,
            title: self.title@,
            description: self.description@,
            can_introduce_restrictions: self.can_introduce_restrictions,
        }
    }
}

/// The mathematical value of a collective proposal; the payload is opaque.
pub ghost struct CollectiveProposalModel {
    pub proposal_id: Seq<char>,
    pub scope: ScopeModel,
    pub title: Seq<char>,
    pub description: Seq<char>,
    pub can_introduce_restrictions: bool,
}

/// One ballot with its externally computed effective weight, in whole weight
/// units.
#[derive(Debug)]
pub struct QuadraticVote {
    pub voter: Did,
    pub effective_weight: u64,
    pub support: bool,
}

/// The summed tally of a proposal's ballots.
#[derive(Debug)]
pub struct QuadraticOutcome {
    pub proposal_id: String,
    pub total_support: u128,
    pub total_opposition: u128,
}

/// The summed weight of the supporting ballots.
pub open spec fn support_sum(votes: Seq<QuadraticVote>) -> int
    decreases votes.len(),
{
    if votes.len() == 0 {
        0
    } else {
        support_sum(votes.drop_last()) + if votes.last().support {
            votes.last().effective_weight as int
        } else {
            0
        }
    }
}

/// The summed weight of the opposing ballots.
pub open spec fn oppose_sum(votes: Seq<QuadraticVote>) -> int
    decreases votes.len(),
{
    if votes.len() == 0 {
        0
    } else {
        oppose_sum(votes.drop_last()) + if votes.last().support {
            0
        } else {
            votes.last().effective_weight as int
        }
    }
}

/// Each sum is non-negative and bounded by the ballot count times the
/// largest weight.
proof fn lemma_sum_bounds(votes: Seq<QuadraticVote>)
    ensures
        0 <= support_sum(votes) <= votes.len() * (u64::MAX as int),
        0 <= oppose_sum(votes) <= votes.len() * (u64::MAX as int),
    decreases votes.len(),
{
    if votes.len() > 0 {
        lemma_sum_bounds(votes.drop_last());
    }
}

/// Which module a scope addresses: a recognised module identifier maps to
/// its module, anything else and the ecosystem-wide scope map to the
/// catch-all stewardship module.
pub open spec fn module_of_scope(scope: ScopeModel) -> StewardModule {
    match scope {
        ScopeModel::EcosystemWide => StewardModule::CSC,
        ScopeModel::Module(mid) => if mid == "PLGA"@ {
            StewardModule::PLGA
        } else if mid == "MME"@ {
            StewardModule::MME
        } else if mid == "VET"@ {
            StewardModule::VET
        } else if mid == "OCG"@ {
            StewardModule::OCG
        } else if mid == "DCCN"@ {
            StewardModule::DCCN
        } else if mid == "REBL"@ {
            StewardModule::REBL
        } else if mid == "PSM"@ {
            StewardModule::PSM
        } else {
            StewardModule::CSC
        },
    }
}

/// Why a supported proposal still may not apply.
#[derive(Debug, Clone, PartialEq)]
pub enum CollectiveError {
    /// The ethics kernel vetoed the proposal, for these reasons.
    EthicsVeto(Vec<String>),
    /// A restriction-capable proposal over a charter-bound module reads as
    /// militarised or harmful.
    CharterViolation,
}

impl CollectiveError {
    /// A human-readable reason for the refusal.
    pub fn reason(&self) -> (m: &'static str)
        ensures
            *self is EthicsVeto ==> m@ == "ethics kernel vetoed the governance proposal"@,
            *self is CharterViolation ==> m@
                == "charter disallows militarization or harmful use in bound modules"@,
    {
        match self {
            CollectiveError::EthicsVeto(_) => "ethics kernel vetoed the governance proposal",
            CollectiveError::CharterViolation => "charter disallows militarization or harmful use in bound modules",
        }
    }
}

/// Whether the charter screen blocks the proposal: it can introduce
/// restrictions, addresses a charter-bound module, and its lowercased
/// description reads as militarised.
pub open spec fn charter_blocked(
    charter: Set<StewardModule>,
    p: CollectiveProposalModel,
) -> bool {
    &&& p.can_introduce_restrictions
    &&& charter.contains(module_of_scope(p.scope))
    &&& (has_substring(lower_of(p.description), "weapon"@) || has_substring(
        lower_of(p.description),
        "military"@,
    ))
}

/// The collective governance engine: the ethics kernel and the set of
/// charter-bound modules.
pub struct GovernanceEngine {
    saep: SaepEngine,
    charter_bound_modules: Vec<StewardModule>,
}

impl GovernanceEngine {
    /// The configuration of the embedded ethics kernel.
    pub closed spec fn config_spec(&self) -> crate::ethics::SaepConfig {
        self.saep.config_spec()
    }

    /// The set of charter-bound modules.
    pub closed spec fn charter_spec(&self) -> Set<StewardModule> {
        self.charter_bound_modules@.to_set()
    }

    /// A fresh engine: every stewardship module but the catch-all is bound
    /// to the charter.
    pub fn new(saep: SaepEngine) -> (e: GovernanceEngine)
        ensures
            e.config_spec() == saep.config_spec(),
            e.charter_spec() == Set::<StewardModule>::empty().insert(
                StewardModule::PLGA,
            ).insert(StewardModule::MME).insert(StewardModule::VET).insert(
                StewardModule::OCG,
            ).insert(StewardModule::DCCN).insert(StewardModule::REBL).insert(StewardModule::PSM),
    {
        let mut bound: Vec<StewardModule> = Vec::new();
        bound.push(StewardModule::PLGA);
        bound.push(StewardModule::MME);
        bound.push(StewardModule::VET);
        bound.push(StewardModule::OCG);
        bound.push(StewardModule::DCCN);
        bound.push(StewardModule::REBL);
        bound.push(StewardModule::PSM);
        let e = GovernanceEngine { saep, charter_bound_modules: bound };
        proof {
            assert(e.charter_spec() =~= Set::<StewardModule>::empty().insert(
                StewardModule::PLGA,
            ).insert(StewardModule::MME).insert(StewardModule::VET).insert(
                StewardModule::OCG,
            ).insert(StewardModule::DCCN).insert(StewardModule::REBL).insert(
                StewardModule::PSM,
            )) by {
                assert forall|m: StewardModule| e.charter_bound_modules@.to_set().contains(m)
                    implies Set::<StewardModule>::empty().insert(StewardModule::PLGA).insert(
                    StewardModule::MME,
                ).insert(StewardModule::VET).insert(StewardModule::OCG).insert(
                    StewardModule::DCCN,
                ).insert(StewardModule::REBL).insert(StewardModule::PSM).contains(m) by {
                    let j = choose|j: int|
                        0 <= j < e.charter_bound_modules@.len() && e.charter_bound_modules@[j]
                            == m;
                };
                assert(e.charter_bound_modules@[0] == StewardModule::PLGA);
                assert(e.charter_bound_modules@[1] == StewardModule::MME);
                assert(e.charter_bound_modules@[2] == StewardModule::VET);
                assert(e.charter_bound_modules@[3] == StewardModule::OCG);
                assert(e.charter_bound_modules@[4] == StewardModule::DCCN);
                assert(e.charter_bound_modules@[5] == StewardModule::REBL);
                assert(e.charter_bound_modules@[6] == StewardModule::PSM);
                assert forall|m: StewardModule| Set::<StewardModule>::empty().insert(
                    StewardModule::PLGA,
                ).insert(StewardModule::MME).insert(StewardModule::VET).insert(
                    StewardModule::OCG,
                ).insert(StewardModule::DCCN).insert(StewardModule::REBL).insert(
                    StewardModule::PSM,
                ).contains(m) implies e.charter_bound_modules@.to_set().contains(m) by {
                    assert(e.charter_bound_modules@.contains(m));
                };
            }
        }
        e
    }

    /// Whether a module is bound to the charter.
    fn charter_contains(&self, m: StewardModule) -> (b: bool)
        ensures
            b == self.charter_spec().contains(m),
    {
        let n = self.charter_bound_modules.len();
        let mut i: usize = 0;
        while i < n
            invariant
                n == self.charter_bound_modules@.len(),
                i <= n,
                forall|j: int| 0 <= j < i ==> self.charter_bound_modules@[j] != m,
            decreases n - i,
        {
            if self.charter_bound_modules[i] == m {
                proof {
                    assert(self.charter_bound_modules@.contains(m));
                }
                return true;
            }
            i += 1;
        }
        proof {
            if self.charter_spec().contains(m) {
                let j = choose|j: int|
                    0 <= j < self.charter_bound_modules@.len()
                        && self.charter_bound_modules@[j] == m;
                assert(false);
            }
        }
        false
    }

    /// Sum the ballots into a tally: supporting and opposing weights are
    /// added separately, exactly.
    pub fn tally_quadratic(&self, proposal_id: &str, votes: &[QuadraticVote]) -> (r:
        QuadraticOutcome)
        ensures
            r.proposal_id@ == proposal_id@,
            r.total_support == support_sum(votes@),
            r.total_opposition == oppose_sum(votes@),
    {
        let n = votes.len();
        let mut support: u128 = 0;
        let mut oppose: u128 = 0;
        let mut i: usize = 0;
        proof {
            assert(votes@.take(0) =~= Seq::<QuadraticVote>::empty());
        }
        while i < n
            invariant
                n == votes@.len(),
                i <= n,
                support == support_sum(votes@.take(i as int)),
                oppose == oppose_sum(votes@.take(i as int)),
            decreases n - i,
        {
            proof {
                lemma_sum_bounds(votes@.take(i as int));
                assert(votes@.take(i as int).len() * (u64::MAX as int) <= (u64::MAX as int) * (
                u64::MAX as int)) by {
                    lemma_mul_inequality(
                        votes@.take(i as int).len() as int,
                        u64::MAX as int,
                        u64::MAX as int,
                    );
                }
                assert(votes@.take(i + 1).drop_last() =~= votes@.take(i as int));
                assert(votes@.take(i + 1).last() == votes@[i as int]);
            }
            let v = &votes[i];
            if v.support {
                support = support + (v.effective_weight as u128);
            } else {
                oppose = oppose + (v.effective_weight as u128);
            }
            i += 1;
        }
        proof {
            assert(votes@.take(n as int) =~= votes@);
        }
        QuadraticOutcome {
            proposal_id: proposal_id.to_owned(),
            total_support: support,
            total_opposition: oppose,
        }
    }

    /// Decide whether a tallied proposal may apply.
    ///
    /// A proposal without a strict support majority simply does not apply.
    /// One with a majority is screened by the ethics kernel, whose veto is
    /// decisive whatever the vote; a surviving restriction-capable proposal
    /// over a charter-bound module must also pass the charter screen.
    pub fn can_apply_proposal(
        &self,
        proposal: &GovernanceProposal,
        outcome: &QuadraticOutcome,
    ) -> (r: Result<bool, CollectiveError>)
        ensures
            ({
                let d = spec_decision(self.config_spec(), lower_of(proposal.description@));
                &&& (r == Result::<bool, CollectiveError>::Ok(false)) <==> outcome.total_support
                    <= outcome.total_opposition
                &&& (r matches Result::Err(CollectiveError::EthicsVeto(rs)) ==> rs@.map_values(
                    |s: String| s@,
                ) == d.reasons)
                &&& (r matches Result::Err(CollectiveError::EthicsVeto(_))) <==> (
                outcome.total_support > outcome.total_opposition && !d.allowed)
                &&& (r matches Result::Err(CollectiveError::CharterViolation)) <==> (
                outcome.total_support > outcome.total_opposition && d.allowed && charter_blocked(
                    self.charter_spec(),
                    proposal@,
                ))
                &&& (r == Result::<bool, CollectiveError>::Ok(true)) <==> (outcome.total_support
                    > outcome.total_opposition && d.allowed && !charter_blocked(
                    self.charter_spec(),
                    proposal@,
                ))
            }),
    {
        if outcome.total_support <= outcome.total_opposition {
            return Result::Ok(false);
        }

        let module = match &proposal.scope {
            GovernanceScope::Module(mid) => {
                if str_eq(mid.0.as_str(), "PLGA") {
                    StewardModule::PLGA
                } else if str_eq(mid.0.as_str(), "MME") {
                    StewardModule::MME
                } else if str_eq(mid.0.as_str(), "VET") {
                    StewardModule::VET
                } else if str_eq(mid.0.as_str(), "OCG") {
                    StewardModule::OCG
                } else if str_eq(mid.0.as_str(), "DCCN") {
                    StewardModule::DCCN
                } else if str_eq(mid.0.as_str(), "REBL") {
                    StewardModule::REBL
                } else if str_eq(mid.0.as_str(), "PSM") {
                    StewardModule::PSM
                } else {
                    StewardModule::CSC
                }
            },
            GovernanceScope::EcosystemWide => StewardModule::CSC,
        };
        proof {
            assert(module == module_of_scope(proposal@.scope));
        }

        let ctx = EthicsContext {
            actor: Did("did:psv:governance:collective".to_owned()),
            affected_parties: Vec::new(),
            module,
            description: proposal.description.clone(),
            estimated_impact: proposal.payload.clone(),
        };
        let decision = self.saep.evaluate(&ctx);
        if !decision.allowed {
            return Result::Err(CollectiveError::EthicsVeto(decision.reasons));
        }

        if proposal.can_introduce_restrictions && self.charter_contains(module) {
            let lower = lowercase(proposal.description.as_str());
            if contains_substring(lower.as_str(), "weapon") || contains_substring(
                lower.as_str(),
                "military",
            ) {
                return Result::Err(CollectiveError::CharterViolation);
            }
        }

        Result::Ok(true)
    }
}

} // verus!
