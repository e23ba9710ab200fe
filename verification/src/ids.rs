//! Identifier types: opaque string names for capabilities, agents, actors,
//! missions, modules, attestations and governance turns.

use vstd::prelude::*;

verus! {

/// A capability identifier: the opaque name of a permission or ability.
#[derive(Debug)]
pub struct CapabilityId(pub String);

impl CapabilityId {
    /// The mathematical value of an identifier: its character sequence.
    pub open spec fn view(&self) -> Seq<char> {
        self.0@
    }

    /// Test two identifiers for equality of their names.
    pub fn eq_id(&self, other: &CapabilityId) -> (r: bool)
        ensures
            r == (self@ == other@),
    {
        self.0 == other.0
    }
}

impl Clone for CapabilityId {
    fn clone(&self) -> (r: Self)
        ensures
            r@ == self@,
    {
        CapabilityId(self.0.clone())
    }
}

impl PartialEq for CapabilityId {
    fn eq(&self, other: &CapabilityId) -> (r: bool) {
        self.0 == other.0
    }
}

impl vstd::std_specs::cmp::PartialEqSpecImpl for CapabilityId {
    open spec fn obeys_eq_spec() -> bool {
        true
    }

    open spec fn eq_spec(&self, other: &CapabilityId) -> bool {
        self.0@ == other.0@
    }
}

/// An agent identifier: a human, cyborg, AI, or organisation.
#[derive(Debug)]
pub struct AgentId(pub String);

impl AgentId {
    pub open spec fn view(&self) -> Seq<char> {
        self.0@
    }

    pub fn eq_id(&self, other: &AgentId) -> (r: bool)
        ensures
            r == (self@ == other@),
    {
        self.0 == other.0
    }
}

impl Clone for AgentId {
    fn clone(&self) -> (r: Self)
        ensures
            r@ == self@,
    {
        AgentId(self.0.clone())
    }
}

/// An identifier for one governance turn.
#[derive(Debug)]
pub struct GovernanceTurnId(pub String);

impl GovernanceTurnId {
    pub open spec fn view(&self) -> Seq<char> {
        self.0@
    }
}

impl Clone for GovernanceTurnId {
    fn clone(&self) -> (r: Self)
        ensures
            r@ == self@,
    {
        GovernanceTurnId(self.0.clone())
    }
}

/// A decentralised identifier for an actor.
#[derive(Debug)]
pub struct Did(pub String);

impl Did {
    pub open spec fn view(&self) -> Seq<char> {
        self.0@
    }

    pub fn eq_id(&self, other: &Did) -> (r: bool)
        ensures
            r == (self@ == other@),
    {
        self.0 == other.0
    }
}

impl Clone for Did {
    fn clone(&self) -> (r: Self)
        ensures
            r@ == self@,
    {
        Did(self.0.clone())
    }
}

/// A mission identifier.
#[derive(Debug)]
pub struct MissionId(pub String);

impl MissionId {
    pub open spec fn view(&self) -> Seq<char> {
        self.0@
    }

    pub fn eq_id(&self, other: &MissionId) -> (r: bool)
        ensures
            r == (self@ == other@),
    {
        self.0 == other.0
    }
}

impl Clone for MissionId {
    fn clone(&self) -> (r: Self)
        ensures
            r@ == self@,
    {
        MissionId(self.0.clone())
    }
}

/// A module identifier, as referenced by a governance proposal's scope.
#[derive(Debug)]
pub struct ModuleId(pub String);

impl ModuleId {
    pub open spec fn view(&self) -> Seq<char> {
        self.0@
    }
}

impl Clone for ModuleId {
    fn clone(&self) -> (r: Self)
        ensures
            r@ == self@,
    {
        ModuleId(self.0.clone())
    }
}

/// An attestation identifier.
#[derive(Debug)]
pub struct AttestationId(pub String);

impl AttestationId {
    pub open spec fn view(&self) -> Seq<char> {
        self.0@
    }

    pub fn eq_id(&self, other: &AttestationId) -> (r: bool)
        ensures
            r == (self@ == other@),
    {
        self.0 == other.0
    }
}

impl Clone for AttestationId {
    fn clone(&self) -> (r: Self)
        ensures
            r@ == self@,
    {
        AttestationId(self.0.clone())
    }
}

} // verus!
