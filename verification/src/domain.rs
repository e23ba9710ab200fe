//! Domain-scoped governance: competitive domains, restriction proposals,
//! vote outcomes, the constitution, and the proposal evaluator.

use vstd::prelude::*;
use crate::caps::CapSet;
use crate::ratio::Ratio;
use crate::ratio::count_frac_gt;
use crate::ratio::weight_ratio_lt;
use crate::text::str_eq;

verus! {

/// A competitive domain: a bounded arena of legal capabilities.
#[derive(Debug)]
pub struct CompetitiveDomain {
    pub id: String,
    /// Human-readable description of the arena.
    pub description: String,
    /// Capabilities that define the legal move-space in this domain.
    pub allowed_capabilities: CapSet,
    /// Freedom budget: how many capabilities must remain enabled here.
    pub min_capability_count: usize,
}

impl CompetitiveDomain {
    pub open spec fn wf(&self) -> bool {
        self.allowed_capabilities.wf()
    }
}

impl Clone for CompetitiveDomain {
    fn clone(&self) -> (r: Self)
        ensures
            r.id@ == self.id@,
            r.description@ == self.description@,
            r.allowed_capabilities@ == self.allowed_capabilities@,
            r.allowed_capabilities.wf() == self.allowed_capabilities.wf(),
            r.min_capability_count == self.min_capability_count,
    {
        CompetitiveDomain {
            id: self.id.clone(),
            description: self.description.clone(),
            allowed_capabilities: self.allowed_capabilities.clone(),
            min_capability_count: self.min_capability_count,
        }
    }
}

/// A governance proposal about a domain's capabilities.
#[derive(Debug)]
pub struct GovernanceProposal {
    pub proposal_id: String,
    /// The domain this proposal applies to.
    pub domain_id: String,
    /// Capabilities to disable if the proposal passes.
    pub restrict_capabilities: CapSet,
    /// Capabilities to explicitly protect regardless of other rules.
    pub protect_capabilities: CapSet,
    /// The supermajority this proposal demands of its own vote.
    pub required_supermajority: Ratio,
    /// Height at which this proposal becomes eligible.
    pub activation_height: u64,
}

impl GovernanceProposal {
    pub open spec fn wf(&self) -> bool {
        &&& self.restrict_capabilities.wf()
        &&& self.protect_capabilities.wf()
        &&& self.required_supermajority.wf()
    }

    pub open spec fn view(&self) -> ProposalModel {
        ProposalModel {
            proposal_id: self.proposal_id@,
            domain_id: self.domain_id@,
            restrict: self.restrict_capabilities@,
            protect: self.protect_capabilities@,
            required_supermajority: self.required_supermajority,
            activation_height: self.activation_height as int,
        }
    }
}

/// The mathematical value of a proposal.
pub ghost struct ProposalModel {
    pub proposal_id: Seq<char>,
    pub domain_id: Seq<char>,
    pub restrict: Set<Seq<char>>,
    pub protect: Set<Seq<char>>,
    pub required_supermajority: Ratio,
    pub activation_height: int,
}

/// The finalized tally of a governance vote.
#[derive(Debug, Clone)]
pub struct GovernanceVoteOutcome {
    pub proposal_id: String,
    pub yes_weight: u128,
    pub no_weight: u128,
    /// Height at which the tally was finalized.
    pub finalized_height: u64,
}

/// Immutable constitutional parameters that no proposal can bypass.
#[derive(Debug)]
pub struct GovernanceConstitution {
    /// Absolute floor for the enabled-capability count in any domain.
    pub global_min_capability_floor: usize,
    /// Largest fraction of a domain's capabilities that one turn may leave disabled.
    pub max_restriction_fraction_per_turn: Ratio,
    /// Minimal supermajority required before any restriction ever applies.
    pub min_supermajority_floor: Ratio,
    /// Whether safety capabilities are hard-protected by a final filter.
    pub hard_protect_safety_capabilities: bool,
    /// Capabilities that are globally non-restrictable.
    pub globally_nonrestrictable: CapSet,
}

impl GovernanceConstitution {
    pub open spec fn wf(&self) -> bool {
        &&& self.max_restriction_fraction_per_turn.wf()
        &&& self.max_restriction_fraction_per_turn.in_unit_interval()
        &&& self.min_supermajority_floor.wf()
        &&& self.min_supermajority_floor.in_unit_interval()
        &&& self.globally_nonrestrictable.wf()
    }

    pub open spec fn view(&self) -> ConstitutionModel {
        ConstitutionModel {
            global_min_capability_floor: self.global_min_capability_floor as int,
            max_restriction_fraction_per_turn: self.max_restriction_fraction_per_turn,
            min_supermajority_floor: self.min_supermajority_floor,
            hard_protect_safety_capabilities: self.hard_protect_safety_capabilities,
            globally_nonrestrictable: self.globally_nonrestrictable@,
        }
    }
}

impl Clone for GovernanceConstitution {
    fn clone(&self) -> (r: Self)
        ensures
            r@ == self@,
            r.wf() == self.wf(),
    {
        GovernanceConstitution {
            global_min_capability_floor: self.global_min_capability_floor,
            max_restriction_fraction_per_turn: self.max_restriction_fraction_per_turn,
            min_supermajority_floor: self.min_supermajority_floor,
            hard_protect_safety_capabilities: self.hard_protect_safety_capabilities,
            globally_nonrestrictable: self.globally_nonrestrictable.clone(),
        }
    }
}

/// The mathematical value of the constitution.
pub ghost struct ConstitutionModel {
    pub global_min_capability_floor: int,
    pub max_restriction_fraction_per_turn: Ratio,
    pub min_supermajority_floor: Ratio,
    pub hard_protect_safety_capabilities: bool,
    pub globally_nonrestrictable: Set<Seq<char>>,
}

/// Runtime state of a domain: its definition plus the currently disabled set.
#[derive(Debug)]
pub struct DomainState {
    pub domain: CompetitiveDomain,
    /// Capabilities currently disabled by prior governance turns.
    pub disabled_capabilities: CapSet,
}

impl DomainState {
    pub open spec fn wf(&self) -> bool {
        &&& self.domain.wf()
        &&& self.disabled_capabilities.wf()
    }

    pub open spec fn view(&self) -> DomainStateModel {
        DomainStateModel {
            id: self.domain.id@,
            description: self.domain.description@,
            allowed: self.domain.allowed_capabilities@,
            min_capability_count: self.domain.min_capability_count as int,
            disabled: self.disabled_capabilities@,
        }
    }
}

impl Clone for DomainState {
    fn clone(&self) -> (r: Self)
        ensures
            r@ == self@,
            r.wf() == self.wf(),
    {
        DomainState {
            domain: self.domain.clone(),
            disabled_capabilities: self.disabled_capabilities.clone(),
        }
    }
}

/// The mathematical value of a domain state.
pub ghost struct DomainStateModel {
    pub id: Seq<char>,
    pub description: Seq<char>,
    pub allowed: Set<Seq<char>>,
    pub min_capability_count: int,
    pub disabled: Set<Seq<char>>,
}

impl DomainStateModel {
    /// Every capability set in the model is finite.
    pub open spec fn finite(&self) -> bool {
        self.allowed.finite() && self.disabled.finite()
    }

    /// How many capabilities count as enabled: the allowed total minus the
    /// disabled count, the latter capped at the total.
    pub open spec fn enabled_count(&self) -> int {
        self.allowed.len() - self.capped_disabled_count()
    }

    /// The disabled count, capped at the allowed total.
    pub open spec fn capped_disabled_count(&self) -> int {
        if self.disabled.len() <= self.allowed.len() {
            self.disabled.len() as int
        } else {
            self.allowed.len() as int
        }
    }
}

/// Why the evaluator rejected a proposal outright.
#[derive(Debug, Clone, Copy, PartialEq, Eq, Structural)]
pub enum GovernanceError {
    /// The proposal references a domain with no recorded state.
    UnknownDomain,
    /// Applying the proposal would leave fewer enabled capabilities than the
    /// domain's own freedom budget.
    DomainFloorViolated,
    /// Applying the proposal would leave fewer enabled capabilities than the
    /// constitutional floor.
    GlobalFloorViolated,
    /// The proposal would leave a larger fraction of the domain disabled than
    /// one turn may.
    RestrictionRateExceeded,
}

impl GovernanceError {
    /// A human-readable reason for the rejection.
    pub fn reason(&self) -> (m: &'static str)
        ensures
            *self is UnknownDomain ==> m@ == "unknown domain identifier"@,
            *self is DomainFloorViolated ==> m@ == "proposal would violate the domain capability floor"@,
            *self is GlobalFloorViolated ==> m@ == "proposal would violate the global capability floor"@,
            *self is RestrictionRateExceeded ==> m@ == "proposal exceeds the per-turn restriction fraction"@,
    {
        match self {
            GovernanceError::UnknownDomain => "unknown domain identifier",
            GovernanceError::DomainFloorViolated => "proposal would violate the domain capability floor",
            GovernanceError::GlobalFloorViolated => "proposal would violate the global capability floor",
            GovernanceError::RestrictionRateExceeded => "proposal exceeds the per-turn restriction fraction",
        }
    }
}

/// What evaluating one proposal yields.
pub ghost enum EvalOutcome {
    /// The proposal is not yet eligible or failed its vote: nothing changes,
    /// and it may be resubmitted later.
    Inert,
    /// The proposal applies and produces this new domain state.
    Applied(DomainStateModel),
    /// The proposal violates the constitution and is invalid as drafted.
    Rejected(GovernanceError),
}

/// The evaluation algorithm, on mathematical values, for a known domain.
///
/// In order: the timing gate, the quorum gate, the supermajority gate (the
/// proposal's own bar and the constitutional floor both apply), the
/// constitutional filter building the tentative disabled set, the two floor
/// checks, the rate-limit check, and the final hard-protect pass.
pub open spec fn eval_model(
    state: DomainStateModel,
    c: ConstitutionModel,
    p: ProposalModel,
    yes_weight: int,
    no_weight: int,
    finalized_height: int,
    current_height: int,
) -> EvalOutcome {
    let total_weight = yes_weight + no_weight;
    if current_height < p.activation_height || finalized_height < p.activation_height {
        EvalOutcome::Inert
    } else if total_weight == 0 {
        EvalOutcome::Inert
    } else if yes_weight * p.required_supermajority.den < p.required_supermajority.num
        * total_weight || yes_weight * c.min_supermajority_floor.den
        < c.min_supermajority_floor.num * total_weight {
        EvalOutcome::Inert
    } else {
        let tentative = state.disabled.union(
            p.restrict.difference(c.globally_nonrestrictable),
        );
        let total = state.allowed.len() as int;
        let disabled_count = if tentative.len() <= total {
            tentative.len() as int
        } else {
            total
        };
        let enabled_count = total - disabled_count;
        if enabled_count < state.min_capability_count {
            EvalOutcome::Rejected(GovernanceError::DomainFloorViolated)
        } else if enabled_count < c.global_min_capability_floor {
            EvalOutcome::Rejected(GovernanceError::GlobalFloorViolated)
        } else if disabled_count * c.max_restriction_fraction_per_turn.den
            > c.max_restriction_fraction_per_turn.num * total {
            EvalOutcome::Rejected(GovernanceError::RestrictionRateExceeded)
        } else {
            let final_disabled = if c.hard_protect_safety_capabilities {
                tentative.difference(c.globally_nonrestrictable)
            } else {
                tentative
            };
            EvalOutcome::Applied(
                DomainStateModel {
                    id: state.id,
                    description: state.description,
                    allowed: state.allowed,
                    min_capability_count: state.min_capability_count,
                    disabled: final_disabled,
                },
            )
        }
    }
}

/// The mathematical value of a governance engine: its constitution and the
/// domain states it tracks, keyed by domain identifier.
pub ghost struct GovernanceModel {
    pub constitution: ConstitutionModel,
    pub domains: Map<Seq<char>, DomainStateModel>,
}

/// Evaluation including the domain lookup.
pub open spec fn spec_evaluate(
    g: GovernanceModel,
    p: ProposalModel,
    yes_weight: int,
    no_weight: int,
    finalized_height: int,
    current_height: int,
) -> EvalOutcome {
    if !g.domains.contains_key(p.domain_id) {
        EvalOutcome::Rejected(GovernanceError::UnknownDomain)
    } else {
        eval_model(
            g.domains[p.domain_id],
            g.constitution,
            p,
            yes_weight,
            no_weight,
            finalized_height,
            current_height,
        )
    }
}

/// The outcome a returned result denotes.
pub open spec fn outcome_of(r: Result<Option<DomainState>, GovernanceError>) -> EvalOutcome {
    match r {
        Result::Ok(Option::None) => EvalOutcome::Inert,
        Result::Ok(Option::Some(ns)) => EvalOutcome::Applied(ns@),
        Result::Err(e) => EvalOutcome::Rejected(e),
    }
}

/// What `evaluate_proposal` promises: the returned result denotes exactly the
/// outcome of the evaluation algorithm, and an applied state is well-formed.
pub open spec fn eval_post(
    g: GovernanceModel,
    p: ProposalModel,
    yes_weight: int,
    no_weight: int,
    finalized_height: int,
    current_height: int,
    r: Result<Option<DomainState>, GovernanceError>,
) -> bool {
    &&& outcome_of(r) == spec_evaluate(g, p, yes_weight, no_weight, finalized_height, current_height)
    &&& (r matches Result::Ok(Option::Some(ns)) ==> ns.wf())
}

/// Which identifiers the tracked domain states carry, in storage order.
pub open spec fn domain_ids_of(s: Seq<DomainState>) -> Seq<Seq<char>> {
    s.map_values(|d: DomainState| d.domain.id@)
}

/// The index at which a domain with identifier `k` is stored.
pub closed spec fn domain_index_of(s: Seq<DomainState>, k: Seq<char>) -> int {
    choose|i: int| 0 <= i < s.len() && s[i].domain.id@ == k
}

/// The map from domain identifiers to tracked domain-state models.
pub closed spec fn domains_map_of(s: Seq<DomainState>) -> Map<Seq<char>, DomainStateModel> {
    Map::new(
        |k: Seq<char>| exists|i: int| 0 <= i < s.len() && (#[trigger] s[i]).domain.id@ == k,
        |k: Seq<char>| s[domain_index_of(s, k)]@,
    )
}

/// How storage relates to the map: a key is present exactly when some entry
/// carries it, and with duplicate-free identifiers each entry is the value of
/// its own key.
pub proof fn lemma_domains_map(s: Seq<DomainState>)
    ensures
        forall|k: Seq<char>|
            domains_map_of(s).contains_key(k) <==> exists|i: int|
                0 <= i < s.len() && (#[trigger] s[i]).domain.id@ == k,
        domain_ids_of(s).no_duplicates() ==> forall|i: int|
            0 <= i < s.len() ==> domains_map_of(s)[(#[trigger] s[i]).domain.id@] == s[i]@,
{
    if domain_ids_of(s).no_duplicates() {
        assert forall|i: int| 0 <= i < s.len() implies domains_map_of(s)[
            (#[trigger] s[i]).domain.id@
        ] == s[i]@ by {
            let k = s[i].domain.id@;
            let j = domain_index_of(s, k);
            assert(0 <= j < s.len() && s[j].domain.id@ == k);
            assert(domain_ids_of(s)[i] == k && domain_ids_of(s)[j] == k);
            assert(j == i);
        };
    }
}

/// Law: baseline invariance. Under hard protection, an applied proposal
/// never leaves a globally non-restrictable capability disabled.
pub proof fn lemma_baseline_invariance(
    state: DomainStateModel,
    c: ConstitutionModel,
    p: ProposalModel,
    yes_weight: int,
    no_weight: int,
    finalized_height: int,
    current_height: int,
    m: DomainStateModel,
)
    requires
        c.hard_protect_safety_capabilities,
        eval_model(state, c, p, yes_weight, no_weight, finalized_height, current_height)
            == EvalOutcome::Applied(m),
    ensures
        m.disabled.intersect(c.globally_nonrestrictable) == Set::<Seq<char>>::empty(),
{
    let tentative = state.disabled.union(p.restrict.difference(c.globally_nonrestrictable));
    assert(m.disabled == tentative.difference(c.globally_nonrestrictable));
    assert(m.disabled.intersect(c.globally_nonrestrictable) =~= Set::<Seq<char>>::empty());
}

/// Law: floor preservation. An applied proposal keeps the domain's allowed
/// set and freedom budget, and leaves at least as many capabilities enabled
/// as both the domain floor and the constitutional floor demand.
pub proof fn lemma_floor_preservation(
    state: DomainStateModel,
    c: ConstitutionModel,
    p: ProposalModel,
    yes_weight: int,
    no_weight: int,
    finalized_height: int,
    current_height: int,
    m: DomainStateModel,
)
    requires
        state.finite(),
        p.restrict.finite(),
        eval_model(state, c, p, yes_weight, no_weight, finalized_height, current_height)
            == EvalOutcome::Applied(m),
    ensures
        m.id == state.id,
        m.allowed == state.allowed,
        m.min_capability_count == state.min_capability_count,
        m.finite(),
        m.enabled_count() >= state.min_capability_count,
        m.enabled_count() >= c.global_min_capability_floor,
{
    let tentative = state.disabled.union(p.restrict.difference(c.globally_nonrestrictable));
    assert(tentative.finite());
    if c.hard_protect_safety_capabilities {
        assert(m.disabled.subset_of(tentative));
    } else {
        assert(m.disabled == tentative);
    }
    vstd::set_lib::lemma_len_subset(m.disabled, tentative);
    let total = state.allowed.len() as int;
    let disabled_count = if tentative.len() <= total {
        tentative.len() as int
    } else {
        total
    };
    assert(m.capped_disabled_count() <= disabled_count);
}

/// Law: floor monotonicity over a whole history. Starting from a state that
/// meets both floors, no sequence of evaluated proposals — applied ones
/// replacing the state, all others leaving it — ever brings the enabled
/// count below the domain floor or the constitutional floor.
pub proof fn lemma_floor_monotonicity(
    state: DomainStateModel,
    c: ConstitutionModel,
    steps: Seq<GovernanceStep>,
)
    requires
        state.finite(),
        forall|i: int| 0 <= i < steps.len() ==> (#[trigger] steps[i]).proposal.restrict.finite(),
        state.enabled_count() >= state.min_capability_count,
        state.enabled_count() >= c.global_min_capability_floor,
    ensures
        run_steps(state, c, steps).finite(),
        run_steps(state, c, steps).id == state.id,
        run_steps(state, c, steps).allowed == state.allowed,
        run_steps(state, c, steps).min_capability_count == state.min_capability_count,
        run_steps(state, c, steps).enabled_count() >= state.min_capability_count,
        run_steps(state, c, steps).enabled_count() >= c.global_min_capability_floor,
    decreases steps.len(),
{
    if steps.len() > 0 {
        let s = steps[0];
        let next = step_model(state, c, s);
        let outcome = eval_model(
            state,
            c,
            s.proposal,
            s.yes_weight,
            s.no_weight,
            s.finalized_height,
            s.current_height,
        );
        if outcome is Applied {
            let m = outcome->Applied_0;
            lemma_floor_preservation(
                state,
                c,
                s.proposal,
                s.yes_weight,
                s.no_weight,
                s.finalized_height,
                s.current_height,
                m,
            );
        }
        lemma_floor_monotonicity(next, c, steps.drop_first());
    }
}

/// One evaluated proposal together with its vote tally and timing.
pub ghost struct GovernanceStep {
    pub proposal: ProposalModel,
    pub yes_weight: int,
    pub no_weight: int,
    pub finalized_height: int,
    pub current_height: int,
}

/// The state after one step: an applied proposal replaces it, any other
/// outcome leaves it unchanged.
pub open spec fn step_model(
    state: DomainStateModel,
    c: ConstitutionModel,
    s: GovernanceStep,
) -> DomainStateModel {
    match eval_model(
        state,
        c,
        s.proposal,
        s.yes_weight,
        s.no_weight,
        s.finalized_height,
        s.current_height,
    ) {
        EvalOutcome::Applied(m) => m,
        _ => state,
    }
}

/// The state after a whole history of steps, applied in order.
pub open spec fn run_steps(
    state: DomainStateModel,
    c: ConstitutionModel,
    steps: Seq<GovernanceStep>,
) -> DomainStateModel
    decreases steps.len(),
{
    if steps.len() == 0 {
        state
    } else {
        run_steps(step_model(state, c, steps[0]), c, steps.drop_first())
    }
}

/// Law: rate bound. For a proposal that restricts within the domain's
/// allowed set, the capabilities an applied turn adds to the disabled set,
/// as a fraction of the domain's total, never exceed the per-turn cap.
pub proof fn lemma_rate_bound(
    state: DomainStateModel,
    c: ConstitutionModel,
    p: ProposalModel,
    yes_weight: int,
    no_weight: int,
    finalized_height: int,
    current_height: int,
    m: DomainStateModel,
)
    requires
        state.finite(),
        p.restrict.finite(),
        state.disabled.subset_of(state.allowed),
        p.restrict.subset_of(state.allowed),
        eval_model(state, c, p, yes_weight, no_weight, finalized_height, current_height)
            == EvalOutcome::Applied(m),
    ensures
        (m.disabled.len() - state.disabled.len()) * c.max_restriction_fraction_per_turn.den
            <= c.max_restriction_fraction_per_turn.num * state.allowed.len(),
{
    let cap = c.max_restriction_fraction_per_turn;
    let tentative = state.disabled.union(p.restrict.difference(c.globally_nonrestrictable));
    let total = state.allowed.len() as int;
    assert(tentative.subset_of(state.allowed));
    vstd::set_lib::lemma_len_subset(tentative, state.allowed);
    let disabled_count = tentative.len() as int;
    assert(!(disabled_count * cap.den > cap.num * total));
    if c.hard_protect_safety_capabilities {
        assert(m.disabled.subset_of(tentative));
    } else {
        assert(m.disabled == tentative);
    }
    vstd::set_lib::lemma_len_subset(m.disabled, tentative);
    vstd::arithmetic::mul::lemma_mul_inequality(
        m.disabled.len() - state.disabled.len(),
        disabled_count,
        cap.den as int,
    );
}

/// Law: evaluation is deterministic. Two results that both satisfy the
/// evaluator's contract for identical inputs denote the same outcome.
pub proof fn lemma_evaluation_deterministic(
    g: GovernanceModel,
    p: ProposalModel,
    yes_weight: int,
    no_weight: int,
    finalized_height: int,
    current_height: int,
    r1: Result<Option<DomainState>, GovernanceError>,
    r2: Result<Option<DomainState>, GovernanceError>,
)
    requires
        eval_post(g, p, yes_weight, no_weight, finalized_height, current_height, r1),
        eval_post(g, p, yes_weight, no_weight, finalized_height, current_height, r2),
    ensures
        outcome_of(r1) == outcome_of(r2),
        r1 is Err <==> r2 is Err,
        r1 == Result::<Option<DomainState>, GovernanceError>::Ok(
            Option::<DomainState>::None,
        ) <==> r2 == Result::<Option<DomainState>, GovernanceError>::Ok(
            Option::<DomainState>::None,
        ),
{
}

/// The governance engine for one constitution and its tracked domains.
pub struct CapabilityGovernance {
    constitution: GovernanceConstitution,
    domains: Vec<DomainState>,
}

impl CapabilityGovernance {
    pub closed spec fn view(&self) -> GovernanceModel {
        GovernanceModel {
            constitution: self.constitution@,
            domains: domains_map_of(self.domains@),
        }
    }

    pub closed spec fn wf(&self) -> bool {
        &&& self.constitution.wf()
        &&& domain_ids_of(self.domains@).no_duplicates()
        &&& forall|i: int| 0 <= i < self.domains@.len() ==> (#[trigger] self.domains@[i]).wf()
    }

    /// Every tracked model is finite and well-keyed.
    pub proof fn lemma_model(&self)
        ensures
            forall|k: Seq<char>| #[trigger] self@.domains.contains_key(k)
                ==> self@.domains[k].finite() && self@.domains[k].id == k,
    {
        lemma_domains_map(self.domains@);
        assert forall|k: Seq<char>| #[trigger] self@.domains.contains_key(k) implies self@.domains[
            k
        ].finite() && self@.domains[k].id == k by {
            let i = domain_index_of(self.domains@, k);
            assert(0 <= i < self.domains@.len() && self.domains@[i].domain.id@ == k);
            self.domains@[i].domain.allowed_capabilities.lemma_model();
            self.domains@[i].disabled_capabilities.lemma_model();
        };
    }

    /// A fresh engine under the given constitution, tracking no domains.
    pub fn new(constitution: GovernanceConstitution) -> (g: CapabilityGovernance)
        requires
            constitution.wf(),
        ensures
            g.wf(),
            g@.constitution == constitution@,
            g@.domains == Map::<Seq<char>, DomainStateModel>::empty(),
    {
        let g = CapabilityGovernance { constitution, domains: Vec::new() };
        proof {
            assert(domain_ids_of(g.domains@) =~= Seq::<Seq<char>>::empty());
            assert(g@.domains =~= Map::<Seq<char>, DomainStateModel>::empty());
        }
        g
    }

    /// The position of the domain with the given identifier, if tracked.
    fn find_domain(&self, domain_id: &str) -> (r: Option<usize>)
        ensures
            match r {
                Option::Some(i) => i < self.domains@.len() && self.domains@[i as int].domain.id@
                    == domain_id@,
                Option::None => !self@.domains.contains_key(domain_id@),
            },
    {
        proof {
            lemma_domains_map(self.domains@);
        }
        let n = self.domains.len();
        let mut i: usize = 0;
        while i < n
            invariant
                n == self.domains@.len(),
                i <= n,
                forall|j: int| 0 <= j < i ==> (#[trigger] self.domains@[j]).domain.id@
                    != domain_id@,
            decreases n - i,
        {
            if str_eq(self.domains[i].domain.id.as_str(), domain_id) {
                return Option::Some(i);
            }
            i += 1;
        }
        Option::None
    }

    /// Register a domain, or redefine a tracked one; a redefined domain keeps
    /// its disabled set, a fresh one starts with nothing disabled.
    pub fn upsert_domain(&mut self, domain: CompetitiveDomain)
        requires
            old(self).wf(),
            domain.wf(),
        ensures
            final(self).wf(),
            final(self)@.constitution == old(self)@.constitution,
            final(self)@.domains == old(self)@.domains.insert(
                domain.id@,
                DomainStateModel {
                    id: domain.id@,
                    description: domain.description@,
                    allowed: domain.allowed_capabilities@,
                    min_capability_count: domain.min_capability_count as int,
                    disabled: if old(self)@.domains.contains_key(domain.id@) {
                        old(self)@.domains[domain.id@].disabled
                    } else {
                        Set::<Seq<char>>::empty()
                    },
                },
            ),
    {
        proof {
            lemma_domains_map(self.domains@);
        }
        let ghost pre = self.domains@;
        let found = self.find_domain(domain.id.as_str());
        match found {
            Option::Some(i) => {
                let mut entry = self.domains.remove(i);
                entry.domain = domain;
                self.domains.insert(i, entry);
                proof {
                    let post = self.domains@;
                    assert(post =~= pre.update(i as int, post[i as int]));
                    assert(domain_ids_of(post) =~= domain_ids_of(pre));
                    assert forall|j: int| 0 <= j < post.len() implies (#[trigger] post[j]).wf() by {
                        if j != i {
                            assert(post[j] == pre[j]);
                        }
                    }
                    lemma_domains_map(post);
                    assert forall|k: Seq<char>| #[trigger] domains_map_of(post).contains_key(k)
                        implies old(self)@.domains.insert(
                        post[i as int].domain.id@,
                        post[i as int]@,
                    ).contains_key(k) by {
                        let j = choose|j: int| 0 <= j < post.len() && post[j].domain.id@ == k;
                        if j != i {
                            assert(pre[j].domain.id@ == k);
                        }
                    };
                    assert forall|k: Seq<char>|
                        #[trigger] old(self)@.domains.insert(
                            post[i as int].domain.id@,
                            post[i as int]@,
                        ).contains_key(k) implies domains_map_of(post).contains_key(k) by {
                        if k != post[i as int].domain.id@ {
                            let j = choose|j: int| 0 <= j < pre.len() && pre[j].domain.id@ == k;
                            assert(post[j].domain.id@ == k);
                        }
                    };
                    assert forall|k: Seq<char>| #[trigger] domains_map_of(post).contains_key(k)
                        implies domains_map_of(post)[k] == old(self)@.domains.insert(
                        post[i as int].domain.id@,
                        post[i as int]@,
                    )[k] by {
                        let j = choose|j: int| 0 <= j < post.len() && post[j].domain.id@ == k;
                        assert(domains_map_of(post)[post[j].domain.id@] == post[j]@);
                        if j != i {
                            assert(pre[j].domain.id@ == k);
                            assert(domains_map_of(pre)[pre[j].domain.id@] == pre[j]@);
                        }
                    };
                    assert(domains_map_of(post) =~= old(self)@.domains.insert(
                        post[i as int].domain.id@,
                        post[i as int]@,
                    ));
                    assert(old(self)@.domains[domain.id@] == pre[i as int]@);
                }
            },
            Option::None => {
                let ghost key = domain.id@;
                self.domains.push(
                    DomainState { domain, disabled_capabilities: CapSet::new() },
                );
                proof {
                    let post = self.domains@;
                    assert(domain_ids_of(post) =~= domain_ids_of(pre).push(key));
                    assert forall|j: int| 0 <= j < pre.len() implies domain_ids_of(pre)[j]
                        != key by {
                        if pre[j].domain.id@ == key {
                            assert(domains_map_of(pre).contains_key(key));
                        }
                    }
                    assert(domain_ids_of(post).no_duplicates());
                    assert forall|j: int| 0 <= j < post.len() implies (#[trigger] post[j]).wf() by {
                        if j < pre.len() {
                            assert(post[j] == pre[j]);
                        }
                    }
                    lemma_domains_map(post);
                    assert forall|k: Seq<char>| #[trigger] domains_map_of(post).contains_key(k)
                        implies old(self)@.domains.insert(key, post[pre.len() as int]@)
                        .contains_key(k) by {
                        let j = choose|j: int| 0 <= j < post.len() && post[j].domain.id@ == k;
                        if j < pre.len() {
                            assert(pre[j].domain.id@ == k);
                        }
                    };
                    assert forall|k: Seq<char>|
                        #[trigger] old(self)@.domains.insert(key, post[pre.len() as int]@)
                        .contains_key(k) implies domains_map_of(post).contains_key(k) by {
                        if k != key {
                            let j = choose|j: int| 0 <= j < pre.len() && pre[j].domain.id@ == k;
                            assert(post[j].domain.id@ == k);
                        }
                    };
                    assert forall|k: Seq<char>| #[trigger] domains_map_of(post).contains_key(k)
                        implies domains_map_of(post)[k] == old(self)@.domains.insert(
                        key,
                        post[pre.len() as int]@,
                    )[k] by {
                        let j = choose|j: int| 0 <= j < post.len() && post[j].domain.id@ == k;
                        assert(domains_map_of(post)[post[j].domain.id@] == post[j]@);
                        if j < pre.len() {
                            assert(pre[j].domain.id@ == k);
                            assert(domains_map_of(pre)[pre[j].domain.id@] == pre[j]@);
                        }
                    };
                    assert(domains_map_of(post) =~= old(self)@.domains.insert(
                        key,
                        post[pre.len() as int]@,
                    ));
                    assert(post[pre.len() as int]@.disabled =~= Set::<Seq<char>>::empty());
                }
            },
        }
    }

    /// The tracked state of a domain, if any.
    pub fn get_domain_state(&self, domain_id: &str) -> (r: Option<&DomainState>)
        requires
            self.wf(),
        ensures
            match r {
                Option::Some(s) => self@.domains.contains_key(domain_id@) && s@ == self@.domains[
                    domain_id@
                ] && s.wf(),
                Option::None => !self@.domains.contains_key(domain_id@),
            },
    {
        proof {
            lemma_domains_map(self.domains@);
        }
        match self.find_domain(domain_id) {
            Option::Some(i) => Option::Some(&self.domains[i]),
            Option::None => Option::None,
        }
    }

    /// Check whether a proposal may apply given a finalized vote, and if so
    /// compute the new domain state.
    ///
    /// `Ok(None)` means the proposal is inert for now (timing, quorum, or
    /// supermajority not met) and may be resubmitted; `Err` means it violates
    /// the constitution as drafted; `Ok(Some(state))` is the state after the
    /// restrictions apply. The tracked state itself is not modified.
    pub fn evaluate_proposal(
        &self,
        proposal: &GovernanceProposal,
        vote_outcome: &GovernanceVoteOutcome,
        current_height: u64,
    ) -> (r: Result<Option<DomainState>, GovernanceError>)
        requires
            self.wf(),
            proposal.wf(),
            vote_outcome.yes_weight + vote_outcome.no_weight <= u128::MAX,
        ensures
            eval_post(
                self@,
                proposal@,
                vote_outcome.yes_weight as int,
                vote_outcome.no_weight as int,
                vote_outcome.finalized_height as int,
                current_height as int,
                r,
            ),
    {
        proof {
            lemma_domains_map(self.domains@);
        }
        let state = match self.find_domain(proposal.domain_id.as_str()) {
            Option::Some(i) => &self.domains[i],
            Option::None => {
                return Result::Err(GovernanceError::UnknownDomain);
            },
        };
        let ghost smodel = self@.domains[proposal.domain_id@];
        proof {
            assert(smodel == state@);
        }

        if current_height < proposal.activation_height || vote_outcome.finalized_height
            < proposal.activation_height {
            return Result::Ok(Option::None);
        }

        let total_weight = vote_outcome.yes_weight + vote_outcome.no_weight;
        if total_weight == 0 {
            return Result::Ok(Option::None);
        }
        if weight_ratio_lt(vote_outcome.yes_weight, total_weight, &proposal.required_supermajority)
            || weight_ratio_lt(
            vote_outcome.yes_weight,
            total_weight,
            &self.constitution.min_supermajority_floor,
        ) {
            return Result::Ok(Option::None);
        }

        let tentative = state.disabled_capabilities.union(
            &proposal.restrict_capabilities.difference(&self.constitution.globally_nonrestrictable),
        );
        let total_caps = state.domain.allowed_capabilities.len();
        let tentative_len = tentative.len();
        let disabled_count = if tentative_len <= total_caps {
            tentative_len
        } else {
            total_caps
        };
        let enabled_count = total_caps - disabled_count;

        if enabled_count < state.domain.min_capability_count {
            return Result::Err(GovernanceError::DomainFloorViolated);
        }
        if enabled_count < self.constitution.global_min_capability_floor {
            return Result::Err(GovernanceError::GlobalFloorViolated);
        }
        if count_frac_gt(
            disabled_count,
            total_caps,
            &self.constitution.max_restriction_fraction_per_turn,
        ) {
            return Result::Err(GovernanceError::RestrictionRateExceeded);
        }

        let final_disabled = if self.constitution.hard_protect_safety_capabilities {
            tentative.difference(&self.constitution.globally_nonrestrictable)
        } else {
            tentative
        };
        let new_state = DomainState {
            domain: state.domain.clone(),
            disabled_capabilities: final_disabled,
        };
        Result::Ok(Option::Some(new_state))
    }
}

} // verus!
