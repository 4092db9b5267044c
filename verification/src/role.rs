//! Roles: operator-chosen names, semantic kinds and kernel authorities.
use vstd::prelude::*;

verus! {

/// Operator-chosen role label, such as `platform_lead`.
#[derive(Debug, PartialEq, Eq, PartialOrd, Ord, Hash)]
pub struct RoleName {
    pub name: String,
}

impl View for RoleName {
    type V = Seq<char>;

    open spec fn view(&self) -> Seq<char> {
        self.name@
    }
}

impl Clone for RoleName {
    fn clone(&self) -> (copy: Self)
        ensures
            copy == *self,
    {
        RoleName { name: self.name.clone() }
    }
}

impl RoleName {
    /// Label a role.
    pub fn new(name: &str) -> (r: Self)
        ensures
            r@ == name@,
    {
        RoleName { name: name.to_owned() }
    }

    /// The label.
    pub fn as_str(&self) -> (s: &str)
        ensures
            s@ == self@,
    {
        self.name.as_str()
    }
}

/// What a role is for.
#[derive(Debug, Clone, Copy, PartialEq, Eq, PartialOrd, Ord, Hash, Structural)]
pub enum RoleKind {
    /// Owns decomposition, consolidation and close-out of a parent.
    IntegrationOwner,
    /// Accepts or rejects integrated work.
    QaGate,
    /// Does a piece of the work.
    Specialist,
}

impl RoleKind {
    /// All kinds in declaration order.
    pub const ALL: [RoleKind; 3] = [
        RoleKind::IntegrationOwner,
        RoleKind::QaGate,
        RoleKind::Specialist,
    ];

    /// Stable lowercase identifier.
    pub open spec fn text(self) -> Seq<char> {
        match self {
            RoleKind::IntegrationOwner => "integration_owner"@,
            RoleKind::QaGate => "qa_gate"@,
            RoleKind::Specialist => "specialist"@,
        }
    }

    /// Stable lowercase identifier.
    pub fn as_str(self) -> (s: &'static str)
        ensures
            s@ == self.text(),
    {
        match self {
            RoleKind::IntegrationOwner => "integration_owner",
            RoleKind::QaGate => "qa_gate",
            RoleKind::Specialist => "specialist",
        }
    }
}

/// Kernel authorities that a role carries.
#[derive(Debug, Clone, Copy, PartialEq, Eq, Hash, Structural)]
pub struct RoleAuthority {
    /// May break a parent into children.
    pub can_decompose: bool,
    /// May assign work to other roles.
    pub can_assign: bool,
    /// May ask for quality assurance.
    pub can_request_qa: bool,
    /// May close a parent.
    pub can_close_parent: bool,
    /// May file blockers.
    pub can_file_blockers: bool,
    /// May file follow-ups.
    pub can_file_followups: bool,
    /// Must sign off before an item is done.
    pub required_for_done: bool,
}

impl RoleAuthority {
    /// No authority at all.
    pub fn none() -> (a: RoleAuthority)
        ensures
            a == (RoleAuthority {
                can_decompose: false,
                can_assign: false,
                can_request_qa: false,
                can_close_parent: false,
                can_file_blockers: false,
                can_file_followups: false,
                required_for_done: false,
            }),
    {
        RoleAuthority {
            can_decompose: false,
            can_assign: false,
            can_request_qa: false,
            can_close_parent: false,
            can_file_blockers: false,
            can_file_followups: false,
            required_for_done: false,
        }
    }

    /// The authorities particular to a kind of role.
    pub open spec fn of_kind(kind: RoleKind) -> RoleAuthority {
        RoleAuthority {
            can_decompose: kind is IntegrationOwner,
            can_assign: kind is IntegrationOwner,
            can_request_qa: kind is IntegrationOwner,
            can_close_parent: kind is IntegrationOwner,
            can_file_blockers: kind is QaGate,
            can_file_followups: kind is QaGate,
            required_for_done: kind is QaGate,
        }
    }

    /// The authorities particular to `kind`.
    pub fn granted_to(kind: RoleKind) -> (a: RoleAuthority)
        ensures
            a == RoleAuthority::of_kind(kind),
    {
        let owner: bool = matches!(kind, RoleKind::IntegrationOwner);
        let gate: bool = matches!(kind, RoleKind::QaGate);
        RoleAuthority {
            can_decompose: owner,
            can_assign: owner,
            can_request_qa: owner,
            can_close_parent: owner,
            can_file_blockers: gate,
            can_file_followups: gate,
            required_for_done: gate,
        }
    }

    /// The authorities of a kind by default.
    pub open spec fn defaults_of(kind: RoleKind) -> RoleAuthority {
        RoleAuthority { can_file_followups: true, ..RoleAuthority::of_kind(kind) }
    }

    /// What a role of `kind` may do unless the operator says otherwise: the
    /// authorities particular to the kind, and follow-up filing, which every
    /// role has.
    pub fn defaults_for(kind: RoleKind) -> (a: RoleAuthority)
        ensures
            a == RoleAuthority::defaults_of(kind),
            a == (RoleAuthority { can_file_followups: true, ..RoleAuthority::of_kind(kind) }),
    {
        let mut a: RoleAuthority = RoleAuthority::granted_to(kind);
        a.can_file_followups = true;
        a
    }
}

/// A role as the prompt presents it to an agent.
#[derive(Debug, Clone, PartialEq, Eq)]
pub struct RoleContext {
    /// Operator-chosen label.
    pub name: RoleName,
    /// Semantic kind.
    pub kind: RoleKind,
    /// Authorities in force.
    pub authority: RoleAuthority,
}

impl RoleContext {
    /// A role of `kind` with the authorities particular to it.
    pub fn from_kind(name: &str, kind: RoleKind) -> (r: Self)
        ensures
            r.name@ == name@,
            r.kind == kind,
            r.authority == RoleAuthority::of_kind(kind),
    {
        RoleContext { name: RoleName::new(name), kind, authority: RoleAuthority::granted_to(kind) }
    }
}

/// Every value of [`RoleKind`] is listed.
pub proof fn every_role_kind_is_listed(value: RoleKind)
    ensures
        RoleKind::ALL@.contains(value),
{
    let all = RoleKind::ALL@;
    assert(all[0] == RoleKind::IntegrationOwner);
    assert(all[1] == RoleKind::QaGate);
    assert(all[2] == RoleKind::Specialist);
}

/// Different values of [`RoleKind`] have different names.
pub proof fn role_kind_names_are_distinct(a: RoleKind, b: RoleKind)
    requires
        a.text() == b.text(),
    ensures
        a == b,
{
    reveal_strlit("integration_owner");
    assert("integration_owner"@.len() == 17);
    reveal_strlit("qa_gate");
    assert("qa_gate"@.len() == 7);
    reveal_strlit("specialist");
    assert("specialist"@.len() == 10);
}

/// A name stands for one value of [`RoleKind`], the one it says.
pub proof fn role_kind_names_say_their_value(value: RoleKind)
    ensures
        value.text() == "integration_owner"@ <==> value is IntegrationOwner,
        value.text() == "qa_gate"@ <==> value is QaGate,
        value.text() == "specialist"@ <==> value is Specialist,
{
    if value.text() == "integration_owner"@ {
        role_kind_names_are_distinct(value, RoleKind::IntegrationOwner);
    }
    if value.text() == "qa_gate"@ {
        role_kind_names_are_distinct(value, RoleKind::QaGate);
    }
    if value.text() == "specialist"@ {
        role_kind_names_are_distinct(value, RoleKind::Specialist);
    }
}

/// Only an integration owner may decompose, assign, ask for quality assurance or close a
/// parent; only a gate may file blockers and has to sign off; a specialist has no
/// authority of its own.
pub proof fn authorities_belong_to_their_kind(kind: RoleKind)
    ensures
        ({
            let a = RoleAuthority::of_kind(kind);
            let owner = kind == RoleKind::IntegrationOwner;
            let gate = kind == RoleKind::QaGate;
            &&& a.can_decompose == owner
            &&& a.can_assign == owner
            &&& a.can_request_qa == owner
            &&& a.can_close_parent == owner
            &&& a.can_file_blockers == gate
            &&& a.can_file_followups == gate
            &&& a.required_for_done == gate
        }),
{
}

/// By default every role may file follow-ups, and has nothing else besides the authorities
/// of its kind.
pub proof fn every_role_may_file_followups_by_default(kind: RoleKind)
    ensures
        ({
            let own = RoleAuthority::of_kind(kind);
            let a = RoleAuthority::defaults_of(kind);
            &&& a.can_file_followups
            &&& a.can_decompose == own.can_decompose
            &&& a.can_assign == own.can_assign
            &&& a.can_request_qa == own.can_request_qa
            &&& a.can_close_parent == own.can_close_parent
            &&& a.can_file_blockers == own.can_file_blockers
            &&& a.required_for_done == own.required_for_done
        }),
{
}

} // verus!
