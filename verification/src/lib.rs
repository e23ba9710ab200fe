//! A constitutional capability-governance engine.
//!
//! Capabilities are named permissions held by an agent or available within a
//! competitive domain. Collective proposals and self-governance requests may
//! restrict or extend capability sets, but every change is checked against a
//! fixed constitution: a minimum enabled-capability floor, a per-turn
//! restriction rate cap, a supermajority floor, and a set of capabilities
//! that no governance action may ever restrict.

pub mod agent;
pub mod caps;
pub mod collective;
pub mod domain;
pub mod ethics;
pub mod external;
pub mod ids;
pub mod karma;
pub mod ledger;
pub mod ratio;
pub mod text;

pub use agent::AgentCyberProfile;
pub use agent::AgentError;
pub use agent::CapabilityClass;
pub use agent::CapabilityDomain;
pub use agent::CyberneticAbility;
pub use agent::ElementConfig;
pub use agent::RiskTier;
pub use agent::TheElement;
pub use agent::default_element;
pub use caps::CapSet;
pub use collective::CollectiveError;
pub use collective::GovernanceEngine;
pub use collective::GovernanceScope;
pub use collective::QuadraticOutcome;
pub use collective::QuadraticVote;
pub use domain::CapabilityGovernance;
pub use domain::CompetitiveDomain;
pub use domain::DomainState;
pub use domain::GovernanceConstitution;
pub use domain::GovernanceError;
pub use domain::GovernanceProposal;
pub use domain::GovernanceVoteOutcome;
pub use ethics::ConsentRecord;
pub use ethics::ConsentRegistry;
pub use ethics::EthicsContext;
pub use ethics::EthicsDecision;
pub use ethics::SaepConfig;
pub use ethics::SaepEngine;
pub use ethics::StewardModule;
pub use ids::AgentId;
pub use ids::AttestationId;
pub use ids::CapabilityId;
pub use ids::Did;
pub use ids::GovernanceTurnId;
pub use ids::MissionId;
pub use ids::ModuleId;
pub use karma::BaselineModel;
pub use karma::ImpactMetrics;
pub use karma::JusticeConstraints;
pub use karma::KarmaAllowance;
pub use karma::SafetyEpochManifest;
pub use karma::VNodeId;
pub use karma::current_epoch_window;
pub use ledger::AssignedMission;
pub use ledger::MicroMissionsEngine;
pub use ledger::MissionTemplate;
pub use ledger::PlanetaryLedger;
pub use ledger::StewardshipAttestation;
pub use ledger::StewardshipError;
pub use ratio::Ratio;
