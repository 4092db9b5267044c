//! Scopes that cap concurrent dispatches, and how a contended scope is reported.
use crate::role::RoleName;
use vstd::prelude::*;

verus! {

/// Kind of a concurrency scope.
#[derive(Debug, Clone, Copy, PartialEq, Eq, Hash, Structural)]
pub enum ScopeKind {
    Global,
    Role,
    AgentProfile,
    Repository,
}

/// A concurrency scope.
#[derive(Debug, Clone, PartialEq, Eq)]
pub enum Scope {
    Global,
    Role(String),
    AgentProfile(String),
    Repository(String),
}

impl Scope {
    /// The kind of the scope.
    pub open spec fn kind_of(self) -> ScopeKind {
        match self {
            Scope::Global => ScopeKind::Global,
            Scope::Role(_) => ScopeKind::Role,
            Scope::AgentProfile(_) => ScopeKind::AgentProfile,
            Scope::Repository(_) => ScopeKind::Repository,
        }
    }

    /// The label of the scope; empty for the global one.
    pub open spec fn key_of(self) -> Seq<char> {
        match self {
            Scope::Global => Seq::empty(),
            Scope::Role(key) => key@,
            Scope::AgentProfile(key) => key@,
            Scope::Repository(key) => key@,
        }
    }

    /// The kind of the scope.
    pub fn kind(&self) -> (k: ScopeKind)
        ensures
            k == self.kind_of(),
    {
        match self {
            Scope::Global => ScopeKind::Global,
            Scope::Role(_) => ScopeKind::Role,
            Scope::AgentProfile(_) => ScopeKind::AgentProfile,
            Scope::Repository(_) => ScopeKind::Repository,
        }
    }

    /// The label of the scope; empty for the global one.
    pub fn key(&self) -> (s: String)
        ensures
            s@ == self.key_of(),
    {
        match self {
            Scope::Global => String::new(),
            Scope::Role(key) => key.clone(),
            Scope::AgentProfile(key) => key.clone(),
            Scope::Repository(key) => key.clone(),
        }
    }
}

/// A scope that had no room.
#[derive(Debug, Clone, PartialEq, Eq)]
pub struct ScopeContended {
    /// The scope.
    pub scope: Scope,
    /// Permits in flight on it.
    pub in_flight: u32,
    /// Its cap.
    pub cap: u32,
}

/// The keys under which a dispatch is gated.
#[derive(Debug, Clone, PartialEq, Eq)]
pub struct DispatchTriple {
    /// Role key.
    pub role: String,
    /// Agent-profile key, when there is one.
    pub agent_profile: Option<String>,
    /// Repository key, when there is one.
    pub repository: Option<String>,
}

/// The keys of a dispatch, the role by its label.
pub struct DispatchKeys {
    /// Role key.
    pub role: Seq<char>,
    /// Agent-profile key, when there is one.
    pub agent_profile: Option<String>,
    /// Repository key, when there is one.
    pub repository: Option<String>,
}

impl View for DispatchTriple {
    type V = DispatchKeys;

    open spec fn view(&self) -> DispatchKeys {
        DispatchKeys {
            role: self.role@,
            agent_profile: self.agent_profile,
            repository: self.repository,
        }
    }
}

/// The keys under which a dispatch has to be gated, if it has to be: only where a
/// gate is wired and the request names a role.
pub fn gated_keys(
    gate_wired: bool,
    role: &Option<RoleName>,
    agent_profile: &Option<String>,
    repository: &Option<String>,
) -> (r: Option<DispatchTriple>)
    ensures
        r is Some <==> gate_wired && role is Some,
        r matches Some(keys) ==> keys@ == (DispatchKeys {
            role: role->0@,
            agent_profile: *agent_profile,
            repository: *repository,
        }),
{
    if !gate_wired {
        return None;
    }
    match role {
        Some(name) => Some(
            DispatchTriple {
                role: name.as_str().to_owned(),
                agent_profile: agent_profile.clone(),
                repository: repository.clone(),
            },
        ),
        None => None,
    }
}

/// What a contended scope is recorded about: a run, or else an identifier.
#[derive(Debug, Clone, PartialEq, Eq)]
pub enum ContentionSubject {
    /// A run row.
    Run(i64),
    /// A tracker-facing identifier.
    Identifier(String),
}

/// The recorded facts of a contended scope.
#[derive(Debug, Clone, PartialEq, Eq)]
pub struct ScopeFields {
    /// Kind of the scope.
    pub scope_kind: ScopeKind,
    /// Label of the scope.
    pub scope_key: String,
    /// Permits in flight on it.
    pub in_flight: u32,
    /// Its cap.
    pub cap: u32,
}

/// A scope has the kind that it is of, and the label that it was made with; the global one
/// has none.
pub proof fn scopes_have_their_kind_and_label(scope: Scope)
    ensures
        scope.kind_of() == ScopeKind::Global <==> scope is Global,
        scope.kind_of() == ScopeKind::Role <==> scope is Role,
        scope.kind_of() == ScopeKind::AgentProfile <==> scope is AgentProfile,
        scope.kind_of() == ScopeKind::Repository <==> scope is Repository,
        scope is Global ==> scope.key_of().len() == 0,
        scope matches Scope::Role(key) ==> scope.key_of() == key@,
        scope matches Scope::AgentProfile(key) ==> scope.key_of() == key@,
        scope matches Scope::Repository(key) ==> scope.key_of() == key@,
{
}

} // verus!
