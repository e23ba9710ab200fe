//! Agent-scoped capability governance: the ability catalog, per-agent
//! capability profiles, self-governance requests, and collective governance
//! turns.

use vstd::prelude::*;
use crate::caps::CapSet;
use crate::ids::AgentId;
use crate::ids::CapabilityId;
use crate::ids::GovernanceTurnId;
use crate::ratio::Ratio;
use crate::ratio::count_frac_gt;
use crate::external::empty_json_object;

verus! {

/// The sphere of life an ability belongs to.
#[derive(Debug, Clone, Copy, PartialEq, Eq, Structural)]
pub enum CapabilityDomain {
    Cognitive,
    Motor,
    Sensory,
    Social,
    Security,
    Meta,
}

/// How an ability relates to governance: a baseline right that no collective
/// turn may remove, an optional enhancement, or an experimental power.
#[derive(Debug, Clone, Copy, PartialEq, Eq, Structural)]
pub enum CapabilityClass {
    BaselineRight,
    Enhancement,
    Experimental,
}

/// The risk tier of an ability.
#[derive(Debug, Clone, Copy, PartialEq, Eq, Structural)]
pub enum RiskTier {
    Low,
    Medium,
    High,
}

/// A single ability in the catalog.
#[derive(Debug)]
pub struct CyberneticAbility {
    pub id: CapabilityId,
    pub name: String,
    pub domain: CapabilityDomain,
    pub class_: CapabilityClass,
    pub risk_tier: RiskTier,
    /// Human-readable description of what this ability does.
    pub description: String,
    /// Abilities that must already be enabled before this one can be.
    pub prerequisites: CapSet,
    /// Whether this ability can be delegated to an agentic co-pilot.
    pub ai_delegable: bool,
    /// Whether enabling this ability demands explicit opt-in.
    pub require_explicit_opt_in: bool,
}

impl CyberneticAbility {
    pub open spec fn wf(&self) -> bool {
        self.prerequisites.wf()
    }

    pub open spec fn view(&self) -> AbilityModel {
        AbilityModel {
            id: self.id@,
            name: self.name@,
            domain: self.domain,
            class_: self.class_,
            risk_tier: self.risk_tier,
            description: self.description@,
            prerequisites: self.prerequisites@,
            ai_delegable: self.ai_delegable,
            require_explicit_opt_in: self.require_explicit_opt_in,
        }
    }
}

impl Clone for CyberneticAbility {
    fn clone(&self) -> (r: Self)
        ensures
            r@ == self@,
            r.wf() == self.wf(),
    {
        CyberneticAbility {
            id: self.id.clone(),
            name: self.name.clone(),
            domain: self.domain,
            class_: self.class_,
            risk_tier: self.risk_tier,
            description: self.description.clone(),
            prerequisites: self.prerequisites.clone(),
            ai_delegable: self.ai_delegable,
            require_explicit_opt_in: self.require_explicit_opt_in,
        }
    }
}

/// The mathematical value of a catalog ability.
pub ghost struct AbilityModel {
    pub id: Seq<char>,
    pub name: Seq<char>,
    pub domain: CapabilityDomain,
    pub class_: CapabilityClass,
    pub risk_tier: RiskTier,
    pub description: Seq<char>,
    pub prerequisites: Set<Seq<char>>,
    pub ai_delegable: bool,
    pub require_explicit_opt_in: bool,
}

/// An agent's capability profile: what is enabled for it and what it has
/// blocked for itself.
#[derive(Debug)]
pub struct AgentCyberProfile {
    pub agent: AgentId,
    pub enabled_capabilities: CapSet,
    pub blocked_capabilities: CapSet,
    /// Free-form preferences, carried as an opaque JSON payload.
    pub preferences: serde_json::Value,
}

impl AgentCyberProfile {
    pub open spec fn wf(&self) -> bool {
        &&& self.enabled_capabilities.wf()
        &&& self.blocked_capabilities.wf()
    }

    pub open spec fn view(&self) -> ProfileModel {
        ProfileModel {
            agent: self.agent@,
            enabled: self.enabled_capabilities@,
            blocked: self.blocked_capabilities@,
        }
    }
}

/// The mathematical value of a profile; preferences are opaque and carry no
/// governance meaning.
pub ghost struct ProfileModel {
    pub agent: Seq<char>,
    pub enabled: Set<Seq<char>>,
    pub blocked: Set<Seq<char>>,
}

/// Configuration of the agent-scoped engine.
#[derive(Debug)]
pub struct ElementConfig {
    /// Baseline capabilities that must remain available to every agent.
    pub global_baseline_capabilities: CapSet,
    /// Largest fraction of an agent's enabled capabilities that one
    /// governance turn may restrict.
    pub max_restriction_fraction_per_turn: Ratio,
}

impl ElementConfig {
    pub open spec fn wf(&self) -> bool {
        &&& self.global_baseline_capabilities.wf()
        &&& self.max_restriction_fraction_per_turn.wf()
        &&& self.max_restriction_fraction_per_turn.in_unit_interval()
    }

    pub open spec fn view(&self) -> ConfigModel {
        ConfigModel {
            baseline: self.global_baseline_capabilities@,
            max_restriction_fraction_per_turn: self.max_restriction_fraction_per_turn,
        }
    }
}

/// The mathematical value of the configuration.
pub ghost struct ConfigModel {
    pub baseline: Set<Seq<char>>,
    pub max_restriction_fraction_per_turn: Ratio,
}

/// Why an agent-scoped request or governance turn failed.
#[derive(Debug, Clone, PartialEq)]
pub enum AgentError {
    /// The capability is not in the catalog.
    UnknownCapability,
    /// The ability demands explicit opt-in and none was given.
    OptInRequired,
    /// The agent has blocked this capability for itself; self-blocks always
    /// win.
    SelfBlocked,
    /// This prerequisite of the ability is not enabled for the agent.
    MissingPrerequisite(CapabilityId),
    /// The turn tries to restrict this baseline capability; the check is
    /// absolute and precedes any rate computation.
    BaselineViolation(CapabilityId),
    /// The turn restricts a larger fraction of the agent's enabled
    /// capabilities than one turn may.
    RateExceeded,
}

impl AgentError {
    /// A human-readable reason for the failure.
    pub fn reason(&self) -> (m: &'static str)
        ensures
            *self is UnknownCapability ==> m@ == "unknown capability"@,
            *self is OptInRequired ==> m@ == "explicit opt-in required for this ability"@,
            *self is SelfBlocked ==> m@ == "agent has explicitly blocked this capability"@,
            *self is MissingPrerequisite ==> m@ == "missing prerequisite capability"@,
            *self is BaselineViolation ==> m@ == "cannot restrict a baseline capability"@,
            *self is RateExceeded ==> m@ == "restriction exceeds the allowed per-turn fraction"@,
    {
        match self {
            AgentError::UnknownCapability => "unknown capability",
            AgentError::OptInRequired => "explicit opt-in required for this ability",
            AgentError::SelfBlocked => "agent has explicitly blocked this capability",
            AgentError::MissingPrerequisite(_) => "missing prerequisite capability",
            AgentError::BaselineViolation(_) => "cannot restrict a baseline capability",
            AgentError::RateExceeded => "restriction exceeds the allowed per-turn fraction",
        }
    }
}

/// The mathematical value of the engine: its configuration, the ability
/// catalog keyed by capability identifier, and the profiles keyed by agent.
pub ghost struct ElementModel {
    pub config: ConfigModel,
    pub abilities: Map<Seq<char>, AbilityModel>,
    pub profiles: Map<Seq<char>, ProfileModel>,
}

/// Which identifiers the stored abilities carry, in storage order.
pub open spec fn ability_ids_of(s: Seq<CyberneticAbility>) -> Seq<Seq<char>> {
    s.map_values(|a: CyberneticAbility| a.id@)
}

/// The index at which the ability with identifier `k` is stored.
pub closed spec fn ability_index_of(s: Seq<CyberneticAbility>, k: Seq<char>) -> int {
    choose|i: int| 0 <= i < s.len() && s[i].id@ == k
}

/// The catalog map the stored abilities denote.
pub closed spec fn abilities_map_of(s: Seq<CyberneticAbility>) -> Map<Seq<char>, AbilityModel> {
    Map::new(
        |k: Seq<char>| exists|i: int| 0 <= i < s.len() && (#[trigger] s[i]).id@ == k,
        |k: Seq<char>| s[ability_index_of(s, k)]@,
    )
}

/// How ability storage relates to the catalog map.
pub proof fn lemma_abilities_map(s: Seq<CyberneticAbility>)
    ensures
        forall|k: Seq<char>|
            abilities_map_of(s).contains_key(k) <==> exists|i: int|
                0 <= i < s.len() && (#[trigger] s[i]).id@ == k,
        ability_ids_of(s).no_duplicates() ==> forall|i: int|
            0 <= i < s.len() ==> abilities_map_of(s)[(#[trigger] s[i]).id@] == s[i]@,
{
    if ability_ids_of(s).no_duplicates() {
        assert forall|i: int| 0 <= i < s.len() implies abilities_map_of(s)[
            (#[trigger] s[i]).id@
        ] == s[i]@ by {
            let k = s[i].id@;
            let j = ability_index_of(s, k);
            assert(0 <= j < s.len() && s[j].id@ == k);
            assert(ability_ids_of(s)[i] == k && ability_ids_of(s)[j] == k);
        };
    }
}

/// Which agents the stored profiles belong to, in storage order.
pub open spec fn profile_ids_of(s: Seq<AgentCyberProfile>) -> Seq<Seq<char>> {
    s.map_values(|p: AgentCyberProfile| p.agent@)
}

/// The index at which the profile of agent `k` is stored.
pub closed spec fn profile_index_of(s: Seq<AgentCyberProfile>, k: Seq<char>) -> int {
    choose|i: int| 0 <= i < s.len() && s[i].agent@ == k
}

/// The profile map the stored profiles denote.
pub closed spec fn profiles_map_of(s: Seq<AgentCyberProfile>) -> Map<Seq<char>, ProfileModel> {
    Map::new(
        |k: Seq<char>| exists|i: int| 0 <= i < s.len() && (#[trigger] s[i]).agent@ == k,
        |k: Seq<char>| s[profile_index_of(s, k)]@,
    )
}

/// How profile storage relates to the profile map.
pub proof fn lemma_profiles_map(s: Seq<AgentCyberProfile>)
    ensures
        forall|k: Seq<char>|
            profiles_map_of(s).contains_key(k) <==> exists|i: int|
                0 <= i < s.len() && (#[trigger] s[i]).agent@ == k,
        profile_ids_of(s).no_duplicates() ==> forall|i: int|
            0 <= i < s.len() ==> profiles_map_of(s)[(#[trigger] s[i]).agent@] == s[i]@,
{
    if profile_ids_of(s).no_duplicates() {
        assert forall|i: int| 0 <= i < s.len() implies profiles_map_of(s)[
            (#[trigger] s[i]).agent@
        ] == s[i]@ by {
            let k = s[i].agent@;
            let j = profile_index_of(s, k);
            assert(0 <= j < s.len() && s[j].agent@ == k);
            assert(profile_ids_of(s)[i] == k && profile_ids_of(s)[j] == k);
        };
    }
}

/// Replacing one stored profile, its agent unchanged, updates only that
/// agent's entry in the profile map.
proof fn lemma_profiles_map_update(pre: Seq<AgentCyberProfile>, post: Seq<AgentCyberProfile>, i: int)
    requires
        0 <= i < pre.len(),
        post == pre.update(i, post[i]),
        post[i].agent@ == pre[i].agent@,
        profile_ids_of(pre).no_duplicates(),
    ensures
        profile_ids_of(post).no_duplicates(),
        profiles_map_of(post) == profiles_map_of(pre).insert(post[i].agent@, post[i]@),
{
    assert(profile_ids_of(post) =~= profile_ids_of(pre));
    lemma_profiles_map(pre);
    lemma_profiles_map(post);
    let target = profiles_map_of(pre).insert(post[i].agent@, post[i]@);
    assert forall|k: Seq<char>| #[trigger] profiles_map_of(post).contains_key(k)
        implies target.contains_key(k) by {
        let j = choose|j: int| 0 <= j < post.len() && post[j].agent@ == k;
        if j != i {
            assert(pre[j].agent@ == k);
        }
    };
    assert forall|k: Seq<char>| #[trigger] target.contains_key(k)
        implies profiles_map_of(post).contains_key(k) by {
        if k != post[i].agent@ {
            let j = choose|j: int| 0 <= j < pre.len() && pre[j].agent@ == k;
            assert(post[j].agent@ == k);
        }
    };
    assert forall|k: Seq<char>| #[trigger] profiles_map_of(post).contains_key(k)
        implies profiles_map_of(post)[k] == target[k] by {
        let j = choose|j: int| 0 <= j < post.len() && post[j].agent@ == k;
        assert(profiles_map_of(post)[post[j].agent@] == post[j]@);
        if j != i {
            assert(pre[j].agent@ == k);
            assert(profiles_map_of(pre)[pre[j].agent@] == pre[j]@);
        }
    };
    assert(profiles_map_of(post) =~= target);
}

/// Appending a profile for a fresh agent inserts exactly its entry.
proof fn lemma_profiles_map_push(pre: Seq<AgentCyberProfile>, post: Seq<AgentCyberProfile>)
    requires
        post == pre.push(post.last()),
        post.len() == pre.len() + 1,
        profile_ids_of(pre).no_duplicates(),
        !profiles_map_of(pre).contains_key(post.last().agent@),
    ensures
        profile_ids_of(post).no_duplicates(),
        profiles_map_of(post) == profiles_map_of(pre).insert(post.last().agent@, post.last()@),
{
    let key = post.last().agent@;
    lemma_profiles_map(pre);
    assert(profile_ids_of(post) =~= profile_ids_of(pre).push(key));
    assert forall|j: int| 0 <= j < pre.len() implies profile_ids_of(pre)[j] != key by {
        if pre[j].agent@ == key {
            assert(profiles_map_of(pre).contains_key(key));
        }
    }
    assert(profile_ids_of(post).no_duplicates());
    lemma_profiles_map(post);
    let target = profiles_map_of(pre).insert(key, post.last()@);
    assert forall|k: Seq<char>| #[trigger] profiles_map_of(post).contains_key(k)
        implies target.contains_key(k) by {
        let j = choose|j: int| 0 <= j < post.len() && post[j].agent@ == k;
        if j < pre.len() {
            assert(pre[j].agent@ == k);
        }
    };
    assert forall|k: Seq<char>| #[trigger] target.contains_key(k)
        implies profiles_map_of(post).contains_key(k) by {
        if k != key {
            let j = choose|j: int| 0 <= j < pre.len() && pre[j].agent@ == k;
            assert(post[j].agent@ == k);
        }
    };
    assert forall|k: Seq<char>| #[trigger] profiles_map_of(post).contains_key(k)
        implies profiles_map_of(post)[k] == target[k] by {
        let j = choose|j: int| 0 <= j < post.len() && post[j].agent@ == k;
        assert(profiles_map_of(post)[post[j].agent@] == post[j]@);
        if j < pre.len() {
            assert(pre[j].agent@ == k);
            assert(profiles_map_of(pre)[pre[j].agent@] == pre[j]@);
        }
    };
    assert(profiles_map_of(post) =~= target);
}

/// Replacing one stored ability, its identifier unchanged, updates only that
/// identifier's entry in the catalog map.
proof fn lemma_abilities_map_update(
    pre: Seq<CyberneticAbility>,
    post: Seq<CyberneticAbility>,
    i: int,
)
    requires
        0 <= i < pre.len(),
        post == pre.update(i, post[i]),
        post[i].id@ == pre[i].id@,
        ability_ids_of(pre).no_duplicates(),
    ensures
        ability_ids_of(post).no_duplicates(),
        abilities_map_of(post) == abilities_map_of(pre).insert(post[i].id@, post[i]@),
{
    assert(ability_ids_of(post) =~= ability_ids_of(pre));
    lemma_abilities_map(pre);
    lemma_abilities_map(post);
    let target = abilities_map_of(pre).insert(post[i].id@, post[i]@);
    assert forall|k: Seq<char>| #[trigger] abilities_map_of(post).contains_key(k)
        implies target.contains_key(k) by {
        let j = choose|j: int| 0 <= j < post.len() && post[j].id@ == k;
        if j != i {
            assert(pre[j].id@ == k);
        }
    };
    assert forall|k: Seq<char>| #[trigger] target.contains_key(k)
        implies abilities_map_of(post).contains_key(k) by {
        if k != post[i].id@ {
            let j = choose|j: int| 0 <= j < pre.len() && pre[j].id@ == k;
            assert(post[j].id@ == k);
        }
    };
    assert forall|k: Seq<char>| #[trigger] abilities_map_of(post).contains_key(k)
        implies abilities_map_of(post)[k] == target[k] by {
        let j = choose|j: int| 0 <= j < post.len() && post[j].id@ == k;
        assert(abilities_map_of(post)[post[j].id@] == post[j]@);
        if j != i {
            assert(pre[j].id@ == k);
            assert(abilities_map_of(pre)[pre[j].id@] == pre[j]@);
        }
    };
    assert(abilities_map_of(post) =~= target);
}

/// Appending an ability with a fresh identifier inserts exactly its entry.
proof fn lemma_abilities_map_push(pre: Seq<CyberneticAbility>, post: Seq<CyberneticAbility>)
    requires
        post == pre.push(post.last()),
        post.len() == pre.len() + 1,
        ability_ids_of(pre).no_duplicates(),
        !abilities_map_of(pre).contains_key(post.last().id@),
    ensures
        ability_ids_of(post).no_duplicates(),
        abilities_map_of(post) == abilities_map_of(pre).insert(post.last().id@, post.last()@),
{
    let key = post.last().id@;
    lemma_abilities_map(pre);
    assert(ability_ids_of(post) =~= ability_ids_of(pre).push(key));
    assert forall|j: int| 0 <= j < pre.len() implies ability_ids_of(pre)[j] != key by {
        if pre[j].id@ == key {
            assert(abilities_map_of(pre).contains_key(key));
        }
    }
    assert(ability_ids_of(post).no_duplicates());
    lemma_abilities_map(post);
    let target = abilities_map_of(pre).insert(key, post.last()@);
    assert forall|k: Seq<char>| #[trigger] abilities_map_of(post).contains_key(k)
        implies target.contains_key(k) by {
        let j = choose|j: int| 0 <= j < post.len() && post[j].id@ == k;
        if j < pre.len() {
            assert(pre[j].id@ == k);
        }
    };
    assert forall|k: Seq<char>| #[trigger] target.contains_key(k)
        implies abilities_map_of(post).contains_key(k) by {
        if k != key {
            let j = choose|j: int| 0 <= j < pre.len() && pre[j].id@ == k;
            assert(post[j].id@ == k);
        }
    };
    assert forall|k: Seq<char>| #[trigger] abilities_map_of(post).contains_key(k)
        implies abilities_map_of(post)[k] == target[k] by {
        let j = choose|j: int| 0 <= j < post.len() && post[j].id@ == k;
        assert(abilities_map_of(post)[post[j].id@] == post[j]@);
        if j < pre.len() {
            assert(pre[j].id@ == k);
            assert(abilities_map_of(pre)[pre[j].id@] == pre[j]@);
        }
    };
    assert(abilities_map_of(post) =~= target);
}

/// The profile an operation starts from: the agent's stored profile, or a
/// fresh one seeded with the configured baseline capabilities.
pub open spec fn seeded_profile(m: ElementModel, agent: Seq<char>) -> ProfileModel {
    if m.profiles.contains_key(agent) {
        m.profiles[agent]
    } else {
        ProfileModel { agent, enabled: m.config.baseline, blocked: Set::<Seq<char>>::empty() }
    }
}

/// Whether the capability is in the catalog.
pub open spec fn enable_known(m: ElementModel, cap: Seq<char>) -> bool {
    m.abilities.contains_key(cap)
}

/// Whether the request dies for want of explicit opt-in.
pub open spec fn enable_opt_in_missing(m: ElementModel, cap: Seq<char>, opt_in: bool) -> bool {
    enable_known(m, cap) && m.abilities[cap].require_explicit_opt_in && !opt_in
}

/// Whether the request dies on an earlier self-block.
pub open spec fn enable_self_blocked(
    m: ElementModel,
    agent: Seq<char>,
    cap: Seq<char>,
    opt_in: bool,
) -> bool {
    enable_known(m, cap) && !enable_opt_in_missing(m, cap, opt_in) && seeded_profile(
        m,
        agent,
    ).blocked.contains(cap)
}

/// Whether the request dies on a prerequisite not yet enabled.
pub open spec fn enable_missing_prerequisite(
    m: ElementModel,
    agent: Seq<char>,
    cap: Seq<char>,
    opt_in: bool,
) -> bool {
    enable_known(m, cap) && !enable_opt_in_missing(m, cap, opt_in) && !enable_self_blocked(
        m,
        agent,
        cap,
        opt_in,
    ) && !m.abilities[cap].prerequisites.subset_of(seeded_profile(m, agent).enabled)
}

/// Whether the request succeeds.
pub open spec fn enable_succeeds(
    m: ElementModel,
    agent: Seq<char>,
    cap: Seq<char>,
    opt_in: bool,
) -> bool {
    enable_known(m, cap) && !enable_opt_in_missing(m, cap, opt_in) && !enable_self_blocked(
        m,
        agent,
        cap,
        opt_in,
    ) && m.abilities[cap].prerequisites.subset_of(seeded_profile(m, agent).enabled)
}

/// The engine after a `request_enable`: a request that never reaches the
/// profile leaves everything unchanged; one that does lazily creates the
/// profile, and a successful one additionally enables the capability.
#[verifier::opaque]
pub open spec fn enable_effect(
    m: ElementModel,
    agent: Seq<char>,
    cap: Seq<char>,
    opt_in: bool,
) -> ElementModel {
    if !enable_known(m, cap) || enable_opt_in_missing(m, cap, opt_in) {
        m
    } else {
        let p0 = seeded_profile(m, agent);
        let p1 = if enable_succeeds(m, agent, cap, opt_in) {
            ProfileModel { agent: p0.agent, enabled: p0.enabled.insert(cap), blocked: p0.blocked }
        } else {
            p0
        };
        ElementModel {
            config: m.config,
            abilities: m.abilities,
            profiles: m.profiles.insert(agent, p1),
        }
    }
}

/// A request stopped by the catalog or opt-in gate leaves the engine as it
/// was.
proof fn lemma_enable_effect_untouched(
    m: ElementModel,
    agent: Seq<char>,
    cap: Seq<char>,
    opt_in: bool,
)
    requires
        !enable_known(m, cap) || enable_opt_in_missing(m, cap, opt_in),
    ensures
        enable_effect(m, agent, cap, opt_in) == m,
{
    reveal(enable_effect);
}

/// A request that reaches the profile but fails there only seeds the
/// profile.
proof fn lemma_enable_effect_failed(
    m: ElementModel,
    agent: Seq<char>,
    cap: Seq<char>,
    opt_in: bool,
    result: ElementModel,
)
    requires
        enable_known(m, cap),
        !enable_opt_in_missing(m, cap, opt_in),
        !enable_succeeds(m, agent, cap, opt_in),
        result.config == m.config,
        result.abilities == m.abilities,
        result.profiles == m.profiles.insert(agent, seeded_profile(m, agent)),
    ensures
        enable_effect(m, agent, cap, opt_in) == result,
{
    reveal(enable_effect);
}

/// A successful request seeds the profile and enables the capability.
proof fn lemma_enable_effect_succeeded(
    m: ElementModel,
    agent: Seq<char>,
    cap: Seq<char>,
    opt_in: bool,
    result: ElementModel,
)
    requires
        enable_succeeds(m, agent, cap, opt_in),
        result.config == m.config,
        result.abilities == m.abilities,
        result.profiles == m.profiles.insert(
            agent,
            ProfileModel {
                agent: seeded_profile(m, agent).agent,
                enabled: seeded_profile(m, agent).enabled.insert(cap),
                blocked: seeded_profile(m, agent).blocked,
            },
        ),
    ensures
        enable_effect(m, agent, cap, opt_in) == result,
{
    reveal(enable_effect);
}

/// The engine after a `request_block`: the capability leaves the agent's
/// enabled set and enters its blocked set, unconditionally.
pub open spec fn block_effect(m: ElementModel, agent: Seq<char>, cap: Seq<char>) -> ElementModel {
    let p0 = seeded_profile(m, agent);
    let p1 = ProfileModel {
        agent: p0.agent,
        enabled: p0.enabled.remove(cap),
        blocked: p0.blocked.insert(cap),
    };
    ElementModel {
        config: m.config,
        abilities: m.abilities,
        profiles: m.profiles.insert(agent, p1),
    }
}

/// Whether a turn's restriction set touches the configured baseline.
pub open spec fn turn_baseline_violated(m: ElementModel, restrict: Set<Seq<char>>) -> bool {
    exists|x: Seq<char>| restrict.contains(x) && m.config.baseline.contains(x)
}

/// The denominator of the turn's restriction fraction: the agent's enabled
/// count, but at least one.
pub open spec fn turn_total_before(m: ElementModel, agent: Seq<char>) -> int {
    let e = seeded_profile(m, agent).enabled.len() as int;
    if e == 0 {
        1
    } else {
        e
    }
}

/// Whether the turn restricts a larger fraction of the agent's enabled
/// capabilities than the per-turn cap allows.
pub open spec fn turn_rate_exceeded(
    m: ElementModel,
    agent: Seq<char>,
    restrict: Set<Seq<char>>,
) -> bool {
    let count = restrict.intersect(seeded_profile(m, agent).enabled).len() as int;
    count * m.config.max_restriction_fraction_per_turn.den
        > m.config.max_restriction_fraction_per_turn.num * turn_total_before(m, agent)
}

/// Whether the turn applies.
pub open spec fn turn_succeeds(m: ElementModel, agent: Seq<char>, restrict: Set<Seq<char>>) -> bool {
    !turn_baseline_violated(m, restrict) && !turn_rate_exceeded(m, agent, restrict)
}

/// The engine after a `governance_turn`: the profile is lazily created
/// either way; an applied turn removes the restricted capabilities and adds
/// the unlocked ones, except those the agent has blocked for itself.
pub open spec fn turn_effect(
    m: ElementModel,
    agent: Seq<char>,
    restrict: Set<Seq<char>>,
    unlock: Set<Seq<char>>,
) -> ElementModel {
    let p0 = seeded_profile(m, agent);
    let p1 = if turn_succeeds(m, agent, restrict) {
        ProfileModel {
            agent: p0.agent,
            enabled: p0.enabled.difference(restrict).union(unlock.difference(p0.blocked)),
            blocked: p0.blocked,
        }
    } else {
        p0
    };
    ElementModel {
        config: m.config,
        abilities: m.abilities,
        profiles: m.profiles.insert(agent, p1),
    }
}

/// Law: a self-block takes hold. After `request_block`, the capability is in
/// the agent's blocked set and out of its enabled set.
pub proof fn lemma_self_block_establishes(m: ElementModel, agent: Seq<char>, cap: Seq<char>)
    ensures
        block_effect(m, agent, cap).profiles.contains_key(agent),
        block_effect(m, agent, cap).profiles[agent].blocked.contains(cap),
        !block_effect(m, agent, cap).profiles[agent].enabled.contains(cap),
{
}

/// Law: no governance turn lifts a self-block. A turn neither removes the
/// capability from the blocked set nor lets any unlock bring it back into
/// the enabled set.
pub proof fn lemma_block_preserved_by_turn(
    m: ElementModel,
    agent: Seq<char>,
    cap: Seq<char>,
    restrict: Set<Seq<char>>,
    unlock: Set<Seq<char>>,
)
    requires
        m.profiles.contains_key(agent),
        m.profiles[agent].blocked.contains(cap),
        !m.profiles[agent].enabled.contains(cap),
    ensures
        turn_effect(m, agent, restrict, unlock).profiles[agent].blocked.contains(cap),
        !turn_effect(m, agent, restrict, unlock).profiles[agent].enabled.contains(cap),
{
}

/// Law: no enable request lifts a self-block either. Enabling the blocked
/// capability itself fails, and enabling any other capability leaves the
/// blocked one untouched.
pub proof fn lemma_block_preserved_by_enable(
    m: ElementModel,
    agent: Seq<char>,
    cap: Seq<char>,
    requested: Seq<char>,
    opt_in: bool,
)
    requires
        m.profiles.contains_key(agent),
        m.profiles[agent].blocked.contains(cap),
        !m.profiles[agent].enabled.contains(cap),
    ensures
        enable_effect(m, agent, requested, opt_in).profiles[agent].blocked.contains(cap),
        !enable_effect(m, agent, requested, opt_in).profiles[agent].enabled.contains(cap),
{
    reveal(enable_effect);
}

/// Law: self-block supremacy. Once an agent blocks a capability for itself,
/// a subsequent governance turn — whatever it restricts or unlocks — leaves
/// the capability blocked and disabled for that agent.
pub proof fn lemma_self_block_supremacy(
    m: ElementModel,
    agent: Seq<char>,
    cap: Seq<char>,
    restrict: Set<Seq<char>>,
    unlock: Set<Seq<char>>,
)
    ensures
        turn_effect(block_effect(m, agent, cap), agent, restrict, unlock).profiles[
            agent
        ].blocked.contains(cap),
        !turn_effect(block_effect(m, agent, cap), agent, restrict, unlock).profiles[
            agent
        ].enabled.contains(cap),
{
    lemma_self_block_establishes(m, agent, cap);
    lemma_block_preserved_by_turn(block_effect(m, agent, cap), agent, cap, restrict, unlock);
}

/// The agent-scoped governance engine: the configuration, the ability
/// catalog, and the per-agent profiles.
pub struct TheElement {
    config: ElementConfig,
    abilities: Vec<CyberneticAbility>,
    profiles: Vec<AgentCyberProfile>,
}

impl TheElement {
    pub closed spec fn view(&self) -> ElementModel {
        ElementModel {
            config: self.config@,
            abilities: abilities_map_of(self.abilities@),
            profiles: profiles_map_of(self.profiles@),
        }
    }

    pub closed spec fn wf(&self) -> bool {
        &&& self.config.wf()
        &&& ability_ids_of(self.abilities@).no_duplicates()
        &&& forall|i: int| 0 <= i < self.abilities@.len() ==> (#[trigger] self.abilities@[i]).wf()
        &&& profile_ids_of(self.profiles@).no_duplicates()
        &&& forall|i: int| 0 <= i < self.profiles@.len() ==> (#[trigger] self.profiles@[i]).wf()
    }

    /// Every tracked model is finite and well-keyed.
    pub proof fn lemma_model(&self)
        ensures
            self@.config.baseline.finite(),
            forall|k: Seq<char>| #[trigger] self@.profiles.contains_key(k)
                ==> self@.profiles[k].enabled.finite() && self@.profiles[k].blocked.finite()
                    && self@.profiles[k].agent == k,
            forall|k: Seq<char>| #[trigger] self@.abilities.contains_key(k)
                ==> self@.abilities[k].prerequisites.finite() && self@.abilities[k].id == k,
    {
        self.config.global_baseline_capabilities.lemma_model();
        lemma_profiles_map(self.profiles@);
        lemma_abilities_map(self.abilities@);
        assert forall|k: Seq<char>| #[trigger] self@.profiles.contains_key(k)
            implies self@.profiles[k].enabled.finite() && self@.profiles[k].blocked.finite()
                && self@.profiles[k].agent == k by {
            let i = profile_index_of(self.profiles@, k);
            assert(0 <= i < self.profiles@.len() && self.profiles@[i].agent@ == k);
            self.profiles@[i].enabled_capabilities.lemma_model();
            self.profiles@[i].blocked_capabilities.lemma_model();
        };
        assert forall|k: Seq<char>| #[trigger] self@.abilities.contains_key(k)
            implies self@.abilities[k].prerequisites.finite() && self@.abilities[k].id == k by {
            let i = ability_index_of(self.abilities@, k);
            assert(0 <= i < self.abilities@.len() && self.abilities@[i].id@ == k);
            self.abilities@[i].prerequisites.lemma_model();
        };
    }

    /// A fresh engine with an empty catalog and no profiles.
    pub fn new(config: ElementConfig) -> (e: TheElement)
        requires
            config.wf(),
        ensures
            e.wf(),
            e@.config == config@,
            e@.abilities == Map::<Seq<char>, AbilityModel>::empty(),
            e@.profiles == Map::<Seq<char>, ProfileModel>::empty(),
    {
        let e = TheElement { config, abilities: Vec::new(), profiles: Vec::new() };
        proof {
            assert(ability_ids_of(e.abilities@) =~= Seq::<Seq<char>>::empty());
            assert(profile_ids_of(e.profiles@) =~= Seq::<Seq<char>>::empty());
            assert(e@.abilities =~= Map::<Seq<char>, AbilityModel>::empty());
            assert(e@.profiles =~= Map::<Seq<char>, ProfileModel>::empty());
        }
        e
    }

    /// The position of the ability with the given identifier, if any.
    fn find_ability(&self, id: &CapabilityId) -> (r: Option<usize>)
        ensures
            match r {
                Option::Some(i) => i < self.abilities@.len() && self.abilities@[i as int].id@
                    == id@,
                Option::None => !self@.abilities.contains_key(id@),
            },
    {
        proof {
            lemma_abilities_map(self.abilities@);
        }
        let n = self.abilities.len();
        let mut i: usize = 0;
        while i < n
            invariant
                n == self.abilities@.len(),
                i <= n,
                forall|j: int| 0 <= j < i ==> (#[trigger] self.abilities@[j]).id@ != id@,
            decreases n - i,
        {
            if self.abilities[i].id.eq_id(id) {
                return Option::Some(i);
            }
            i += 1;
        }
        Option::None
    }

    /// The position of the agent's profile, if stored.
    fn find_profile(&self, agent: &AgentId) -> (r: Option<usize>)
        ensures
            match r {
                Option::Some(i) => i < self.profiles@.len() && self.profiles@[i as int].agent@
                    == agent@,
                Option::None => !self@.profiles.contains_key(agent@),
            },
    {
        proof {
            lemma_profiles_map(self.profiles@);
        }
        let n = self.profiles.len();
        let mut i: usize = 0;
        while i < n
            invariant
                n == self.profiles@.len(),
                i <= n,
                forall|j: int| 0 <= j < i ==> (#[trigger] self.profiles@[j]).agent@ != agent@,
            decreases n - i,
        {
            if self.profiles[i].agent.eq_id(agent) {
                return Option::Some(i);
            }
            i += 1;
        }
        Option::None
    }

    /// Define or replace an ability in the catalog.
    pub fn upsert_ability(&mut self, ability: CyberneticAbility)
        requires
            old(self).wf(),
            ability.wf(),
        ensures
            final(self).wf(),
            final(self)@.config == old(self)@.config,
            final(self)@.profiles == old(self)@.profiles,
            final(self)@.abilities == old(self)@.abilities.insert(ability.id@, ability@),
    {
        let ghost pre = self.abilities@;
        let found = self.find_ability(&ability.id);
        match found {
            Option::Some(i) => {
                let ghost key = ability.id@;
                self.abilities.remove(i);
                self.abilities.insert(i, ability);
                proof {
                    let post = self.abilities@;
                    assert(post =~= pre.update(i as int, post[i as int]));
                    lemma_abilities_map_update(pre, post, i as int);
                    assert forall|j: int| 0 <= j < post.len() implies (#[trigger] post[j]).wf()
                        by {
                        if j != i {
                            assert(post[j] == pre[j]);
                        }
                    }
                }
            },
            Option::None => {
                proof {
                    lemma_abilities_map(pre);
                }
                self.abilities.push(ability);
                proof {
                    let post = self.abilities@;
                    assert(post =~= pre.push(post.last()));
                    lemma_abilities_map_push(pre, post);
                    assert forall|j: int| 0 <= j < post.len() implies (#[trigger] post[j]).wf()
                        by {
                        if j < pre.len() {
                            assert(post[j] == pre[j]);
                        }
                    }
                }
            },
        }
    }

    /// The agent's stored profile, if it has ever been referenced.
    pub fn get_profile(&self, agent: &AgentId) -> (r: Option<&AgentCyberProfile>)
        requires
            self.wf(),
        ensures
            match r {
                Option::Some(p) => self@.profiles.contains_key(agent@) && p@ == self@.profiles[
                    agent@
                ] && p.wf(),
                Option::None => !self@.profiles.contains_key(agent@),
            },
    {
        proof {
            lemma_profiles_map(self.profiles@);
        }
        match self.find_profile(agent) {
            Option::Some(i) => Option::Some(&self.profiles[i]),
            Option::None => Option::None,
        }
    }

    /// Fetch the agent's profile position, creating the profile seeded with
    /// the baseline capabilities on first reference.
    fn ensure_profile(&mut self, agent: &AgentId) -> (i: usize)
        requires
            old(self).wf(),
        ensures
            final(self).wf(),
            final(self)@.config == old(self)@.config,
            final(self)@.abilities == old(self)@.abilities,
            final(self)@.profiles == old(self)@.profiles.insert(
                agent@,
                seeded_profile(old(self)@, agent@),
            ),
            i < final(self).profiles@.len(),
            final(self).profiles@[i as int].agent@ == agent@,
            final(self).profiles@[i as int]@ == seeded_profile(old(self)@, agent@),
    {
        proof {
            lemma_profiles_map(self.profiles@);
        }
        match self.find_profile(agent) {
            Option::Some(i) => {
                proof {
                    assert(self@.profiles =~= old(self)@.profiles.insert(
                        agent@,
                        seeded_profile(old(self)@, agent@),
                    ));
                }
                i
            },
            Option::None => {
                let ghost pre = self.profiles@;
                let fresh = AgentCyberProfile {
                    agent: agent.clone(),
                    enabled_capabilities: self.config.global_baseline_capabilities.clone(),
                    blocked_capabilities: CapSet::new(),
                    preferences: empty_json_object(),
                };
                let i = self.profiles.len();
                self.profiles.push(fresh);
                proof {
                    let post = self.profiles@;
                    assert(post =~= pre.push(post.last()));
                    lemma_profiles_map_push(pre, post);
                    assert forall|j: int| 0 <= j < post.len() implies (#[trigger] post[j]).wf()
                        by {
                        if j < pre.len() {
                            assert(post[j] == pre[j]);
                        }
                    }
                }
                i
            },
        }
    }

    /// An agent asks to enable a capability for itself.
    ///
    /// Fails when the capability is unknown, when explicit opt-in is demanded
    /// and missing, when the agent has blocked the capability for itself, or
    /// when a prerequisite is not yet enabled; otherwise the capability joins
    /// the agent's enabled set. The profile is lazily created, seeded with
    /// the baseline, as soon as the catalog and opt-in gates pass.
    #[verifier::rlimit(100)]
    pub fn request_enable(
        &mut self,
        agent: &AgentId,
        capability_id: &CapabilityId,
        explicit_opt_in: bool,
    ) -> (r: Result<(), AgentError>)
        requires
            old(self).wf(),
        ensures
            final(self).wf(),
            final(self)@ == enable_effect(old(self)@, agent@, capability_id@, explicit_opt_in),
            r is Ok == enable_succeeds(old(self)@, agent@, capability_id@, explicit_opt_in),
            (r matches Result::Err(AgentError::UnknownCapability)) == !enable_known(
                old(self)@,
                capability_id@,
            ),
            (r matches Result::Err(AgentError::OptInRequired)) == enable_opt_in_missing(
                old(self)@,
                capability_id@,
                explicit_opt_in,
            ),
            (r matches Result::Err(AgentError::SelfBlocked)) == enable_self_blocked(
                old(self)@,
                agent@,
                capability_id@,
                explicit_opt_in,
            ),
            (r matches Result::Err(AgentError::MissingPrerequisite(c)) ==> enable_missing_prerequisite(
                old(self)@,
                agent@,
                capability_id@,
                explicit_opt_in,
            ) && old(self)@.abilities[capability_id@].prerequisites.contains(c@)
                && !seeded_profile(old(self)@, agent@).enabled.contains(c@)),
            enable_missing_prerequisite(old(self)@, agent@, capability_id@, explicit_opt_in)
                ==> (r matches Result::Err(AgentError::MissingPrerequisite(_))),
    {
        let aidx = match self.find_ability(capability_id) {
            Option::Some(i) => i,
            Option::None => {
                proof {
                    lemma_enable_effect_untouched(
                        old(self)@,
                        agent@,
                        capability_id@,
                        explicit_opt_in,
                    );
                }
                return Result::Err(AgentError::UnknownCapability);
            },
        };
        let ability = self.abilities[aidx].clone();
        proof {
            lemma_abilities_map(self.abilities@);
            assert(old(self)@.abilities[capability_id@] == ability@);
        }
        if ability.require_explicit_opt_in && !explicit_opt_in {
            proof {
                lemma_enable_effect_untouched(
                    old(self)@,
                    agent@,
                    capability_id@,
                    explicit_opt_in,
                );
            }
            return Result::Err(AgentError::OptInRequired);
        }
        let pidx = self.ensure_profile(agent);
        let ghost p0 = seeded_profile(old(self)@, agent@);
        if self.profiles[pidx].blocked_capabilities.contains_id(capability_id) {
            proof {
                assert(self@.profiles =~= old(self)@.profiles.insert(agent@, p0));
                lemma_enable_effect_failed(
                    old(self)@,
                    agent@,
                    capability_id@,
                    explicit_opt_in,
                    self@,
                );
            }
            return Result::Err(AgentError::SelfBlocked);
        }
        match ability.prerequisites.first_not_in(&self.profiles[pidx].enabled_capabilities) {
            Option::Some(c) => {
                proof {
                    assert(self@.profiles =~= old(self)@.profiles.insert(agent@, p0));
                    lemma_enable_effect_failed(
                        old(self)@,
                        agent@,
                        capability_id@,
                        explicit_opt_in,
                        self@,
                    );
                }
                return Result::Err(AgentError::MissingPrerequisite(c));
            },
            Option::None => {},
        }
        let ghost pre = self.profiles@;
        let mut prof = self.profiles.remove(pidx);
        prof.enabled_capabilities.insert(capability_id.clone());
        self.profiles.insert(pidx, prof);
        proof {
            let post = self.profiles@;
            assert(post =~= pre.update(pidx as int, post[pidx as int]));
            lemma_profiles_map_update(pre, post, pidx as int);
            let p1 = ProfileModel {
                agent: p0.agent,
                enabled: p0.enabled.insert(capability_id@),
                blocked: p0.blocked,
            };
            assert(post[pidx as int]@ == p1);
            assert(profiles_map_of(post) =~= old(self)@.profiles.insert(agent@, p1));
            lemma_enable_effect_succeeded(
                old(self)@,
                agent@,
                capability_id@,
                explicit_opt_in,
                self@,
            );
        }
        Result::Ok(())
    }

    /// An agent blocks a capability for itself: it leaves the enabled set
    /// and enters the blocked set, unconditionally, and no collective unlock
    /// will override the block.
    pub fn request_block(&mut self, agent: &AgentId, capability_id: &CapabilityId) -> (r: Result<
        (),
        AgentError,
    >)
        requires
            old(self).wf(),
        ensures
            final(self).wf(),
            r is Ok,
            final(self)@ == block_effect(old(self)@, agent@, capability_id@),
    {
        let pidx = self.ensure_profile(agent);
        let ghost p0 = seeded_profile(old(self)@, agent@);
        let ghost pre = self.profiles@;
        let mut prof = self.profiles.remove(pidx);
        prof.enabled_capabilities.remove_id(capability_id);
        prof.blocked_capabilities.insert(capability_id.clone());
        self.profiles.insert(pidx, prof);
        proof {
            let post = self.profiles@;
            assert(post =~= pre.update(pidx as int, post[pidx as int]));
            lemma_profiles_map_update(pre, post, pidx as int);
            let p1 = ProfileModel {
                agent: p0.agent,
                enabled: p0.enabled.remove(capability_id@),
                blocked: p0.blocked.insert(capability_id@),
            };
            assert(post[pidx as int]@ == p1);
            assert(profiles_map_of(post) =~= old(self)@.profiles.insert(agent@, p1));
        }
        Result::Ok(())
    }

    /// A collective governance turn over one agent's profile: restrict some
    /// capabilities and unlock others.
    ///
    /// Restricting any baseline capability is rejected outright, before any
    /// rate computation; a turn whose restriction fraction exceeds the
    /// per-turn cap is rejected; an applied turn removes the restricted
    /// capabilities and adds the unlocked ones, except those the agent has
    /// blocked for itself, which are silently skipped.
    pub fn governance_turn(
        &mut self,
        _turn_id: &GovernanceTurnId,
        agent: &AgentId,
        restrict: &CapSet,
        unlock: &CapSet,
    ) -> (r: Result<(), AgentError>)
        requires
            old(self).wf(),
            restrict.wf(),
            unlock.wf(),
        ensures
            final(self).wf(),
            final(self)@ == turn_effect(old(self)@, agent@, restrict@, unlock@),
            r is Ok == turn_succeeds(old(self)@, agent@, restrict@),
            (r matches Result::Err(AgentError::BaselineViolation(c)) ==> restrict@.contains(c@)
                && old(self)@.config.baseline.contains(c@)),
            (r matches Result::Err(AgentError::BaselineViolation(_))) == turn_baseline_violated(
                old(self)@,
                restrict@,
            ),
            (r matches Result::Err(AgentError::RateExceeded)) == (!turn_baseline_violated(
                old(self)@,
                restrict@,
            ) && turn_rate_exceeded(old(self)@, agent@, restrict@)),
    {
        let pidx = self.ensure_profile(agent);
        let ghost p0 = seeded_profile(old(self)@, agent@);
        let ghost mid = self@;
        match restrict.first_in(&self.config.global_baseline_capabilities) {
            Option::Some(c) => {
                proof {
                    assert(mid.profiles =~= old(self)@.profiles.insert(agent@, p0));
                }
                return Result::Err(AgentError::BaselineViolation(c));
            },
            Option::None => {},
        }
        let enabled_len = self.profiles[pidx].enabled_capabilities.len();
        let total_before: usize = if enabled_len == 0 {
            1
        } else {
            enabled_len
        };
        let restrict_count = restrict.count_in(&self.profiles[pidx].enabled_capabilities);
        if count_frac_gt(
            restrict_count,
            total_before,
            &self.config.max_restriction_fraction_per_turn,
        ) {
            proof {
                assert(mid.profiles =~= old(self)@.profiles.insert(agent@, p0));
            }
            return Result::Err(AgentError::RateExceeded);
        }
        let ghost pre = self.profiles@;
        let mut prof = self.profiles.remove(pidx);
        let new_enabled = prof.enabled_capabilities.difference(restrict).union(
            &unlock.difference(&prof.blocked_capabilities),
        );
        prof.enabled_capabilities = new_enabled;
        self.profiles.insert(pidx, prof);
        proof {
            let post = self.profiles@;
            assert(post =~= pre.update(pidx as int, post[pidx as int]));
            lemma_profiles_map_update(pre, post, pidx as int);
            let p1 = ProfileModel {
                agent: p0.agent,
                enabled: p0.enabled.difference(restrict@).union(unlock@.difference(p0.blocked)),
                blocked: p0.blocked,
            };
            assert(post[pidx as int]@ == p1);
            assert(profiles_map_of(post) =~= old(self)@.profiles.insert(agent@, p1));
        }
        Result::Ok(())
    }
}

/// The identifiers of the default baseline capabilities.
pub open spec fn default_baseline_ids() -> Set<Seq<char>> {
    Set::<Seq<char>>::empty().insert("meta:introspect_state"@).insert(
        "meta:emergency_exit"@,
    ).insert("meta:pause_augmentation"@).insert("security:neuroshield_basic"@)
}

/// The default ability catalog.
pub open spec fn default_catalog() -> Map<Seq<char>, AbilityModel> {
    Map::<Seq<char>, AbilityModel>::empty().insert(
        "meta:introspect_state"@,
        AbilityModel {
            id: "meta:introspect_state"@,
            name: "Introspective State Viewer"@,
            domain: CapabilityDomain::Meta,
            class_: CapabilityClass::BaselineRight,
            risk_tier: RiskTier::Low,
            description: "View and log your own augmentation state in real time."@,
            prerequisites: Set::<Seq<char>>::empty(),
            ai_delegable: false,
            require_explicit_opt_in: false,
        },
    ).insert(
        "meta:emergency_exit"@,
        AbilityModel {
            id: "meta:emergency_exit"@,
            name: "Emergency Exit"@,
            domain: CapabilityDomain::Meta,
            class_: CapabilityClass::BaselineRight,
            risk_tier: RiskTier::Low,
            description: "Immediately disengage any augmentation session and revert to safe defaults."@,
            prerequisites: Set::<Seq<char>>::empty(),
            ai_delegable: false,
            require_explicit_opt_in: false,
        },
    ).insert(
        "meta:pause_augmentation"@,
        AbilityModel {
            id: "meta:pause_augmentation"@,
            name: "Pause Augmentation"@,
            domain: CapabilityDomain::Meta,
            class_: CapabilityClass::BaselineRight,
            risk_tier: RiskTier::Low,
            description: "Temporarily pause all enhancement channels while staying connected."@,
            prerequisites: Set::<Seq<char>>::empty(),
            ai_delegable: false,
            require_explicit_opt_in: false,
        },
    ).insert(
        "security:neuroshield_basic"@,
        AbilityModel {
            id: "security:neuroshield_basic"@,
            name: "Basic Neuroshield"@,
            domain: CapabilityDomain::Security,
            class_: CapabilityClass::BaselineRight,
            risk_tier: RiskTier::Low,
            description: "Baseline neurosecurity filter against malicious prompts or overclocking patterns."@,
            prerequisites: Set::<Seq<char>>::empty(),
            ai_delegable: true,
            require_explicit_opt_in: false,
        },
    ).insert(
        "cognitive:focus_enhancer"@,
        AbilityModel {
            id: "cognitive:focus_enhancer"@,
            name: "Focus Enhancer"@,
            domain: CapabilityDomain::Cognitive,
            class_: CapabilityClass::Enhancement,
            risk_tier: RiskTier::Medium,
            description: "Adaptive neurofeedback and overlays to deepen focus without coercion."@,
            prerequisites: default_baseline_ids(),
            ai_delegable: true,
            require_explicit_opt_in: true,
        },
    ).insert(
        "cognitive:pattern_assist"@,
        AbilityModel {
            id: "cognitive:pattern_assist"@,
            name: "Pattern Assist"@,
            domain: CapabilityDomain::Cognitive,
            class_: CapabilityClass::Enhancement,
            risk_tier: RiskTier::Low,
            description: "Agentic co-pilot highlights patterns and strategies in real time."@,
            prerequisites: default_baseline_ids(),
            ai_delegable: true,
            require_explicit_opt_in: true,
        },
    ).insert(
        "motor:exoskeleton_assist"@,
        AbilityModel {
            id: "motor:exoskeleton_assist"@,
            name: "Exoskeleton Assist"@,
            domain: CapabilityDomain::Motor,
            class_: CapabilityClass::Enhancement,
            risk_tier: RiskTier::Medium,
            description: "Balance and strength assistance via exoskeleton integration."@,
            prerequisites: default_baseline_ids(),
            ai_delegable: true,
            require_explicit_opt_in: true,
        },
    ).insert(
        "sensory:xr_overlay_competitive"@,
        AbilityModel {
            id: "sensory:xr_overlay_competitive"@,
            name: "XR Overlay - Competitive"@,
            domain: CapabilityDomain::Sensory,
            class_: CapabilityClass::Enhancement,
            risk_tier: RiskTier::Low,
            description: "Ethics-checked overlays for competitive gameplay."@,
            prerequisites: default_baseline_ids(),
            ai_delegable: true,
            require_explicit_opt_in: true,
        },
    )
}

/// A starter engine: the four baseline rights are protected, a governance
/// turn may restrict at most a third of an agent's enabled capabilities, and
/// the catalog holds the default abilities.
pub fn default_element() -> (e: TheElement)
    ensures
        e.wf(),
        e@.profiles == Map::<Seq<char>, ProfileModel>::empty(),
        e@.config.baseline == default_baseline_ids(),
        e@.config.max_restriction_fraction_per_turn == (Ratio { num: 33, den: 100 }),
        e@.abilities == default_catalog(),
{
    let mut baseline_caps = CapSet::new();
    baseline_caps.insert(CapabilityId("meta:introspect_state".to_owned()));
    baseline_caps.insert(CapabilityId("meta:emergency_exit".to_owned()));
    baseline_caps.insert(CapabilityId("meta:pause_augmentation".to_owned()));
    baseline_caps.insert(CapabilityId("security:neuroshield_basic".to_owned()));
    let config = ElementConfig {
        global_baseline_capabilities: baseline_caps.clone(),
        max_restriction_fraction_per_turn: Ratio::new(33, 100),
    };
    let mut element = TheElement::new(config);

    element.upsert_ability(
        CyberneticAbility {
            id: CapabilityId("meta:introspect_state".to_owned()),
            name: "Introspective State Viewer".to_owned(),
            domain: CapabilityDomain::Meta,
            class_: CapabilityClass::BaselineRight,
            risk_tier: RiskTier::Low,
            description: "View and log your own augmentation state in real time.".to_owned(),
            prerequisites: CapSet::new(),
            ai_delegable: false,
            require_explicit_opt_in: false,
        },
    );
    element.upsert_ability(
        CyberneticAbility {
            id: CapabilityId("meta:emergency_exit".to_owned()),
            name: "Emergency Exit".to_owned(),
            domain: CapabilityDomain::Meta,
            class_: CapabilityClass::BaselineRight,
            risk_tier: RiskTier::Low,
            description: "Immediately disengage any augmentation session and revert to safe defaults.".to_owned(),
            prerequisites: CapSet::new(),
            ai_delegable: false,
            require_explicit_opt_in: false,
        },
    );
    element.upsert_ability(
        CyberneticAbility {
            id: CapabilityId("meta:pause_augmentation".to_owned()),
            name: "Pause Augmentation".to_owned(),
            domain: CapabilityDomain::Meta,
            class_: CapabilityClass::BaselineRight,
            risk_tier: RiskTier::Low,
            description: "Temporarily pause all enhancement channels while staying connected.".to_owned(),
            prerequisites: CapSet::new(),
            ai_delegable: false,
            require_explicit_opt_in: false,
        },
    );
    element.upsert_ability(
        CyberneticAbility {
            id: CapabilityId("security:neuroshield_basic".to_owned()),
            name: "Basic Neuroshield".to_owned(),
            domain: CapabilityDomain::Security,
            class_: CapabilityClass::BaselineRight,
            risk_tier: RiskTier::Low,
            description: "Baseline neurosecurity filter against malicious prompts or overclocking patterns.".to_owned(),
            prerequisites: CapSet::new(),
            ai_delegable: true,
            require_explicit_opt_in: false,
        },
    );
    element.upsert_ability(
        CyberneticAbility {
            id: CapabilityId("cognitive:focus_enhancer".to_owned()),
            name: "Focus Enhancer".to_owned(),
            domain: CapabilityDomain::Cognitive,
            class_: CapabilityClass::Enhancement,
            risk_tier: RiskTier::Medium,
            description: "Adaptive neurofeedback and overlays to deepen focus without coercion.".to_owned(),
            prerequisites: baseline_caps.clone(),
            ai_delegable: true,
            require_explicit_opt_in: true,
        },
    );
    element.upsert_ability(
        CyberneticAbility {
            id: CapabilityId("cognitive:pattern_assist".to_owned()),
            name: "Pattern Assist".to_owned(),
            domain: CapabilityDomain::Cognitive,
            class_: CapabilityClass::Enhancement,
            risk_tier: RiskTier::Low,
            description: "Agentic co-pilot highlights patterns and strategies in real time.".to_owned(),
            prerequisites: baseline_caps.clone(),
            ai_delegable: true,
            require_explicit_opt_in: true,
        },
    );
    element.upsert_ability(
        CyberneticAbility {
            id: CapabilityId("motor:exoskeleton_assist".to_owned()),
            name: "Exoskeleton Assist".to_owned(),
            domain: CapabilityDomain::Motor,
            class_: CapabilityClass::Enhancement,
            risk_tier: RiskTier::Medium,
            description: "Balance and strength assistance via exoskeleton integration.".to_owned(),
            prerequisites: baseline_caps.clone(),
            ai_delegable: true,
            require_explicit_opt_in: true,
        },
    );
    element.upsert_ability(
        CyberneticAbility {
            id: CapabilityId("sensory:xr_overlay_competitive".to_owned()),
            name: "XR Overlay - Competitive".to_owned(),
            domain: CapabilityDomain::Sensory,
            class_: CapabilityClass::Enhancement,
            risk_tier: RiskTier::Low,
            description: "Ethics-checked overlays for competitive gameplay.".to_owned(),
            prerequisites: baseline_caps,
            ai_delegable: true,
            require_explicit_opt_in: true,
        },
    );
    element
}

} // verus!