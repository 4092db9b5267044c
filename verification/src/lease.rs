//! Durable lease identity.
//!
//! A running work item is gated by a durable lease. [`LeaseOwner`] is the typed
//! identity of a lease holder: host or process, scheduler instance and worker
//! slot. Its canonical wire form is `<host>/<scheduler_instance>/worker-<slot>`,
//! for example `hostname:1234/scheduler-1/worker-0`; an identity and its wire
//! form are interchangeable.
use crate::text;
use std::str::FromStr;
use vstd::prelude::*;

verus! {

/// Errors produced when constructing or parsing a [`LeaseOwner`].
#[derive(Debug, Clone, PartialEq, Eq)]
pub enum LeaseOwnerParseError {
    /// Fewer than three `/`-separated parts were supplied.
    MissingComponent,
    /// More than three `/`-separated parts were supplied.
    TrailingComponents,
    /// Either `host` or `scheduler_instance` was empty.
    EmptyComponent {
        /// Which component triggered the error.
        field: &'static str,
    },
    /// A component contained the `/` separator used by the wire form.
    ReservedSeparator {
        /// Which component triggered the error.
        field: &'static str,
    },
    /// The third component did not begin with `worker-`.
    MissingWorkerPrefix,
    /// The digits after `worker-` did not read as a `u32`.
    InvalidWorkerSlot,
}

/// What a lease owner identifies.
pub struct LeaseIdentity {
    pub host: Seq<char>,
    pub scheduler_instance: Seq<char>,
    pub worker_slot: u32,
}

impl LeaseIdentity {
    /// The two named components are non-empty and free of the separator.
    pub open spec fn is_valid(self) -> bool {
        &&& component_error("host", self.host) is None
        &&& component_error("scheduler_instance", self.scheduler_instance) is None
    }

    /// The canonical wire form.
    pub open spec fn canonical(self) -> Seq<char> {
        self.host + "/"@ + self.scheduler_instance + "/worker-"@ + text::decimal(self.worker_slot as nat)
    }
}

/// What is wrong with a named component, if anything.
pub open spec fn component_error(field: &'static str, value: Seq<char>) -> Option<
    LeaseOwnerParseError,
> {
    if value.len() == 0 {
        Some(LeaseOwnerParseError::EmptyComponent { field })
    } else if value.contains('/') {
        Some(LeaseOwnerParseError::ReservedSeparator { field })
    } else {
        None
    }
}

/// The first thing wrong with a pair of components.
pub open spec fn identity_error(host: Seq<char>, scheduler_instance: Seq<char>) -> Option<
    LeaseOwnerParseError,
> {
    match component_error("host", host) {
        Some(e) => Some(e),
        None => component_error("scheduler_instance", scheduler_instance),
    }
}

/// The host component of a process: its host name, `localhost` where that is not known,
/// then a colon and its process id.
pub open spec fn process_host(host_name: Option<Seq<char>>, pid: u32) -> Seq<char> {
    (match host_name {
        Some(name) => name,
        None => "localhost"@,
    }) + ":"@ + text::decimal(pid as nat)
}

/// The worker slot that the third component names.
pub open spec fn parse_slot(part: Seq<char>) -> Result<u32, LeaseOwnerParseError> {
    if !"worker-"@.is_prefix_of(part) {
        Err(LeaseOwnerParseError::MissingWorkerPrefix)
    } else {
        match text::parse_u32(part.skip("worker-"@.len() as int)) {
            Some(slot) => Ok(slot),
            None => Err(LeaseOwnerParseError::InvalidWorkerSlot),
        }
    }
}

/// The identity that a wire form stands for, or the first thing wrong with it.
pub open spec fn parse_identity(s: Seq<char>) -> Result<LeaseIdentity, LeaseOwnerParseError> {
    let parts = text::split(s, '/');
    if parts.len() < 3 {
        Err(LeaseOwnerParseError::MissingComponent)
    } else if parts.len() > 3 {
        Err(LeaseOwnerParseError::TrailingComponents)
    } else {
        match component_error("host", parts[0]) {
            Some(e) => Err(e),
            None => match component_error("scheduler_instance", parts[1]) {
                Some(e) => Err(e),
                None => match parse_slot(parts[2]) {
                    Err(e) => Err(e),
                    Ok(slot) => Ok(
                        LeaseIdentity {
                            host: parts[0],
                            scheduler_instance: parts[1],
                            worker_slot: slot,
                        },
                    ),
                },
            },
        }
    }
}

/// Typed identity of a durable lease holder.
#[derive(Debug, PartialEq, Eq, Hash)]
pub struct LeaseOwner {
    host: String,
    scheduler_instance: String,
    worker_slot: u32,
}

impl View for LeaseOwner {
    type V = LeaseIdentity;

    closed spec fn view(&self) -> LeaseIdentity {
        LeaseIdentity {
            host: self.host@,
            scheduler_instance: self.scheduler_instance@,
            worker_slot: self.worker_slot,
        }
    }
}

impl Clone for LeaseOwner {
    fn clone(&self) -> (copy: Self)
        ensures
            copy == *self,
    {
        proof {
            use_type_invariant(self);
        }
        LeaseOwner {
            host: self.host.clone(),
            scheduler_instance: self.scheduler_instance.clone(),
            worker_slot: self.worker_slot,
        }
    }
}

fn validate_component(field: &'static str, value: &str) -> (r: Result<(), LeaseOwnerParseError>)
    ensures
        match component_error(field, value@) {
            Some(e) => r == Err::<(), LeaseOwnerParseError>(e),
            None => r is Ok,
        },
{
    if value.is_empty() {
        return Err(LeaseOwnerParseError::EmptyComponent { field });
    }
    let chars: Vec<char> = text::chars_of(value);
    for i in 0..chars.len()
        invariant
            chars@ == value@,
            forall|j: int| 0 <= j < i ==> value@[j] != '/',
    {
        if chars[i] == '/' {
            assert(value@[i as int] == '/');
            return Err(LeaseOwnerParseError::ReservedSeparator { field });
        }
    }
    Ok(())
}

impl LeaseOwner {
    #[verifier::type_invariant]
    spec fn well_formed(self) -> bool {
        self@.is_valid()
    }

    /// Construct an owner from typed components.
    pub fn new(host: String, scheduler_instance: String, worker_slot: u32) -> (r: Result<
        Self,
        LeaseOwnerParseError,
    >)
        ensures
            match identity_error(host@, scheduler_instance@) {
                Some(e) => r == Err::<Self, LeaseOwnerParseError>(e),
                None => {
                    &&& r matches Ok(owner)
                    &&& owner@ == (LeaseIdentity {
                        host: host@,
                        scheduler_instance: scheduler_instance@,
                        worker_slot,
                    })
                    &&& owner@.is_valid()
                },
            },
    {
        match validate_component("host", host.as_str()) {
            Ok(()) => {},
            Err(e) => return Err(e),
        }
        match validate_component("scheduler_instance", scheduler_instance.as_str()) {
            Ok(()) => {},
            Err(e) => return Err(e),
        }
        Ok(LeaseOwner { host, scheduler_instance, worker_slot })
    }

    /// Construct an owner for the process `pid` on the host `host_name`.
    pub fn current_process(
        host_name: Option<String>,
        pid: u32,
        scheduler_instance: String,
        worker_slot: u32,
    ) -> (r: Result<Self, LeaseOwnerParseError>)
        ensures
            ({
                let host = process_host(
                    match host_name {
                        Some(name) => Some(name@),
                        None => None,
                    },
                    pid,
                );
                match identity_error(host, scheduler_instance@) {
                    Some(e) => r == Err::<Self, LeaseOwnerParseError>(e),
                    None => {
                        &&& r matches Ok(owner)
                        &&& owner@ == (LeaseIdentity {
                            host,
                            scheduler_instance: scheduler_instance@,
                            worker_slot,
                        })
                        &&& owner@.is_valid()
                    },
                }
            }),
    {
        let mut host: String = match host_name {
            Some(name) => name,
            None => "localhost".to_owned(),
        };
        host.append(":");
        text::append_decimal(&mut host, pid as u64);
        Self::new(host, scheduler_instance, worker_slot)
    }

    /// The host component.
    pub fn host(&self) -> (s: &str)
        ensures
            s@ == self@.host,
            self@.is_valid(),
    {
        proof {
            use_type_invariant(self);
        }
        self.host.as_str()
    }

    /// The scheduler-instance component.
    pub fn scheduler_instance(&self) -> (s: &str)
        ensures
            s@ == self@.scheduler_instance,
            self@.is_valid(),
    {
        proof {
            use_type_invariant(self);
        }
        self.scheduler_instance.as_str()
    }

    /// The worker-slot index.
    pub fn worker_slot(&self) -> (n: u32)
        ensures
            n == self@.worker_slot,
    {
        self.worker_slot
    }

    /// The canonical wire form.
    pub fn as_canonical(&self) -> (s: String)
        ensures
            s@ == self@.canonical(),
            self@.is_valid(),
    {
        proof {
            use_type_invariant(self);
        }
        let mut out: String = self.host.clone();
        out.append("/");
        out.append(self.scheduler_instance.as_str());
        out.append("/worker-");
        text::append_decimal(&mut out, self.worker_slot as u64);
        out
    }

    /// The canonical wire form, as [`Self::as_canonical`].
    pub fn to_string(&self) -> (s: String)
        ensures
            s@ == self@.canonical(),
    {
        self.as_canonical()
    }

    /// Read an owner from its wire form.
    pub fn parse(s: &str) -> (r: Result<Self, LeaseOwnerParseError>)
        ensures
            match r {
                Ok(owner) => parse_identity(s@) == Ok::<LeaseIdentity, LeaseOwnerParseError>(
                    owner@,
                ),
                Err(e) => parse_identity(s@) == Err::<LeaseIdentity, LeaseOwnerParseError>(e),
            },
    {
        let parts: Vec<String> = text::split_text(s, '/');
        assert(text::texts(parts@).len() == parts@.len());
        if parts.len() < 3 {
            return Err(LeaseOwnerParseError::MissingComponent);
        }
        if parts.len() > 3 {
            return Err(LeaseOwnerParseError::TrailingComponents);
        }
        assert(forall|i: int| 0 <= i < 3 ==> text::texts(parts@)[i] == (#[trigger] parts@[i])@);
        match validate_component("host", parts[0].as_str()) {
            Ok(()) => {},
            Err(e) => return Err(e),
        }
        match validate_component("scheduler_instance", parts[1].as_str()) {
            Ok(()) => {},
            Err(e) => return Err(e),
        }
        let worker_slot: u32 = match read_slot(parts[2].as_str()) {
            Ok(slot) => slot,
            Err(e) => return Err(e),
        };
        Ok(
            LeaseOwner {
                host: parts[0].clone(),
                scheduler_instance: parts[1].clone(),
                worker_slot,
            },
        )
    }
}

fn read_slot(part: &str) -> (r: Result<u32, LeaseOwnerParseError>)
    ensures
        r == parse_slot(part@),
{
    let prefix: Vec<char> = text::chars_of("worker-");
    let chars: Vec<char> = text::chars_of(part);
    if chars.len() < prefix.len() {
        return Err(LeaseOwnerParseError::MissingWorkerPrefix);
    }
    for i in 0..prefix.len()
        invariant
            prefix@ == "worker-"@,
            chars@ == part@,
            prefix@.len() <= chars@.len(),
            forall|j: int| 0 <= j < i ==> prefix@[j] == chars@[j],
    {
        if chars[i] != prefix[i] {
            return Err(LeaseOwnerParseError::MissingWorkerPrefix);
        }
    }
    assert("worker-"@.is_prefix_of(part@));
    let digits: &str = part.substring_char(prefix.len(), chars.len());
    assert(digits@ =~= part@.skip("worker-"@.len() as int));
    match text::read_u32(digits) {
        Some(slot) => Ok(slot),
        None => Err(LeaseOwnerParseError::InvalidWorkerSlot),
    }
}

impl FromStr for LeaseOwner {
    type Err = LeaseOwnerParseError;

    fn from_str(s: &str) -> (r: Result<Self, LeaseOwnerParseError>)
        ensures
            match r {
                Ok(owner) => parse_identity(s@) == Ok::<LeaseIdentity, LeaseOwnerParseError>(
                    owner@,
                ),
                Err(e) => parse_identity(s@) == Err::<LeaseIdentity, LeaseOwnerParseError>(e),
            },
    {
        LeaseOwner::parse(s)
    }
}

impl vstd::std_specs::convert::FromSpecImpl<LeaseOwner> for String {
    open spec fn obeys_from_spec() -> bool {
        false
    }

    open spec fn from_spec(owner: LeaseOwner) -> String {
        arbitrary()
    }
}

impl From<LeaseOwner> for String {
    fn from(owner: LeaseOwner) -> (s: String)
        ensures
            s@ == owner@.canonical(),
    {
        owner.as_canonical()
    }
}

impl vstd::std_specs::convert::TryFromSpecImpl<String> for LeaseOwner {
    open spec fn obeys_try_from_spec() -> bool {
        false
    }

    open spec fn try_from_spec(value: String) -> Result<Self, LeaseOwnerParseError> {
        arbitrary()
    }
}

impl TryFrom<String> for LeaseOwner {
    type Error = LeaseOwnerParseError;

    fn try_from(value: String) -> (r: Result<Self, LeaseOwnerParseError>)
        ensures
            match r {
                Ok(owner) => parse_identity(value@) == Ok::<LeaseIdentity, LeaseOwnerParseError>(
                    owner@,
                ),
                Err(e) => parse_identity(value@) == Err::<LeaseIdentity, LeaseOwnerParseError>(e),
            },
    {
        LeaseOwner::parse(value.as_str())
    }
}

/// Writing an identity in its wire form and reading it back gives the identity.
pub proof fn canonical_form_reads_back(id: LeaseIdentity)
    requires
        id.is_valid(),
    ensures
        parse_identity(id.canonical()) == Ok::<LeaseIdentity, LeaseOwnerParseError>(id),
{
    let slot = "worker-"@ + text::decimal(id.worker_slot as nat);
    reveal_strlit("/");
    reveal_strlit("worker-");
    reveal_strlit("/worker-");
    text::lemma_decimal_reads_back(id.worker_slot as nat);
    let digits = text::decimal(id.worker_slot as nat);
    assert(id.canonical() =~= id.host.push('/') + (id.scheduler_instance.push('/') + slot));
    text::lemma_split_at_separator(id.host, id.scheduler_instance.push('/') + slot, '/');
    text::lemma_split_at_separator(id.scheduler_instance, slot, '/');
    assert(!slot.contains('/')) by {
        assert forall|i: int| 0 <= i < slot.len() implies slot[i] != '/' by {
            if i >= 7 {
                assert(slot[i] == digits[i - 7]);
            }
        }
    }
    text::lemma_split_without_separator(id.host, '/');
    text::lemma_split_without_separator(id.scheduler_instance, '/');
    text::lemma_split_without_separator(slot, '/');
    let parts = text::split(id.canonical(), '/');
    assert(parts =~= seq![id.host, id.scheduler_instance, slot]);
    assert(slot.skip(7) =~= digits);
    assert("worker-"@.is_prefix_of(slot));
    assert(text::is_digit(digits[0]));
    assert(text::parse_u32(digits) == Some(id.worker_slot));
}

/// Two different identities never share a wire form.
pub proof fn canonical_forms_are_distinct(a: LeaseIdentity, b: LeaseIdentity)
    requires
        a.is_valid(),
        b.is_valid(),
        a.canonical() == b.canonical(),
    ensures
        a == b,
{
    canonical_form_reads_back(a);
    canonical_form_reads_back(b);
}

/// A component is accepted exactly when it holds something and no separator; an empty one
/// is told as empty, and any other as holding the separator, with its field.
pub proof fn components_are_named_and_unseparated(field: &'static str, value: Seq<char>)
    ensures
        component_error(field, value) is None <==> value.len() > 0 && forall|i: int|
            0 <= i < value.len() ==> #[trigger] value[i] != '/',
        value.len() == 0 ==> component_error(field, value) == Some(
            LeaseOwnerParseError::EmptyComponent { field },
        ),
        value.len() > 0 && (exists|i: int| 0 <= i < value.len() && #[trigger] value[i] == '/')
            ==> component_error(field, value) == Some(
            LeaseOwnerParseError::ReservedSeparator { field },
        ),
{
    if value.contains('/') {
        let i = choose|i: int| 0 <= i < value.len() && value[i] == '/';
        assert(value[i] == '/');
    }
}

/// Both components have to be accepted; what is wrong with the host is told first.
pub proof fn both_components_are_checked(host: Seq<char>, scheduler_instance: Seq<char>)
    ensures
        identity_error(host, scheduler_instance) is None <==> component_error("host", host) is None
            && component_error("scheduler_instance", scheduler_instance) is None,
        component_error("host", host) is Some ==> identity_error(host, scheduler_instance)
            == component_error("host", host),
        component_error("host", host) is None ==> identity_error(host, scheduler_instance)
            == component_error("scheduler_instance", scheduler_instance),
        forall|worker_slot: u32|
            (#[trigger] (LeaseIdentity { host, scheduler_instance, worker_slot }).is_valid())
                <==> identity_error(host, scheduler_instance) is None,
{
}

/// What is read is what is written: a text that reads as an identity is the host, the
/// scheduler instance and the worker slot of that identity, separated as in its wire form,
/// and the identity is valid. Only the digits of the slot may be written otherwise.
pub proof fn only_wire_forms_are_read(s: Seq<char>) -> (digits: Seq<char>)
    ensures
        parse_identity(s) matches Ok(id) ==> {
            &&& id.is_valid()
            &&& s == id.host + seq!['/'] + id.scheduler_instance + seq!['/'] + "worker-"@ + digits
            &&& text::parse_u32(digits) == Some(id.worker_slot)
        },
{
    let parts = text::split(s, '/');
    text::splitting_undoes_joining(s, '/');
    if parse_identity(s) is Ok {
        let sep = seq!['/'];
        let digits = parts[2].skip("worker-"@.len() as int);
        assert(parts =~= seq![parts[0]].push(parts[1]).push(parts[2]));
        text::joining_separates_neighbours(seq![parts[0]], parts[1], sep);
        text::joining_separates_neighbours(Seq::empty(), parts[0], sep);
        text::joining_separates_neighbours(seq![parts[0]].push(parts[1]), parts[2], sep);
        assert(parts[2] =~= "worker-"@ + digits);
        assert(s =~= parts[0] + sep + parts[1] + sep + "worker-"@ + digits);
        digits
    } else {
        Seq::empty()
    }
}

/// Too few or too many separators are told as such, before anything else.
pub proof fn wire_forms_have_two_separators(s: Seq<char>)
    ensures
        ({
            let separators = s.filter(|c: char| c == '/').len();
            &&& parse_identity(s) == Err::<LeaseIdentity, LeaseOwnerParseError>(
                LeaseOwnerParseError::MissingComponent,
            ) <==> separators < 2
            &&& parse_identity(s) == Err::<LeaseIdentity, LeaseOwnerParseError>(
                LeaseOwnerParseError::TrailingComponents,
            ) <==> separators > 2
        }),
{
    text::splitting_counts_the_separators(s, '/');
}

/// What is wrong with a text of three components: the host is looked at first, then the
/// scheduler instance, the prefix of the slot, and its digits.
pub proof fn wire_forms_are_read_from_the_left(
    host: Seq<char>,
    scheduler_instance: Seq<char>,
    slot: Seq<char>,
)
    requires
        !host.contains('/'),
        !scheduler_instance.contains('/'),
        !slot.contains('/'),
    ensures
        ({
            let read = parse_identity(
                host + seq!['/'] + scheduler_instance + seq!['/'] + slot,
            );
            let prefixed = exists|rest: Seq<char>| slot == #[trigger] ("worker-"@ + rest);
            &&& host.len() == 0 ==> read == Err::<LeaseIdentity, LeaseOwnerParseError>(
                LeaseOwnerParseError::EmptyComponent { field: "host" },
            )
            &&& host.len() > 0 && scheduler_instance.len() == 0 ==> read == Err::<
                LeaseIdentity,
                LeaseOwnerParseError,
            >(LeaseOwnerParseError::EmptyComponent { field: "scheduler_instance" })
            &&& host.len() > 0 && scheduler_instance.len() > 0 && !prefixed ==> read == Err::<
                LeaseIdentity,
                LeaseOwnerParseError,
            >(LeaseOwnerParseError::MissingWorkerPrefix)
            &&& host.len() > 0 && scheduler_instance.len() > 0 ==> forall|digits: Seq<char>|
                slot == #[trigger] ("worker-"@ + digits) ==> read == (match text::parse_u32(
                    digits,
                ) {
                    Some(worker_slot) => Ok::<LeaseIdentity, LeaseOwnerParseError>(
                        LeaseIdentity { host, scheduler_instance, worker_slot },
                    ),
                    None => Err(LeaseOwnerParseError::InvalidWorkerSlot),
                })
        }),
{
    let whole = host + seq!['/'] + scheduler_instance + seq!['/'] + slot;
    assert(whole =~= host.push('/') + (scheduler_instance.push('/') + slot));
    text::lemma_split_at_separator(host, scheduler_instance.push('/') + slot, '/');
    text::lemma_split_at_separator(scheduler_instance, slot, '/');
    text::lemma_split_without_separator(host, '/');
    text::lemma_split_without_separator(scheduler_instance, '/');
    text::lemma_split_without_separator(slot, '/');
    let parts = text::split(whole, '/');
    assert(parts =~= seq![host, scheduler_instance, slot]);
    if "worker-"@.is_prefix_of(slot) {
        let rest = slot.skip("worker-"@.len() as int);
        assert(slot =~= "worker-"@ + rest);
    }
    assert forall|digits: Seq<char>| slot == #[trigger] ("worker-"@ + digits) implies
        "worker-"@.is_prefix_of(slot) && slot.skip("worker-"@.len() as int) == digits by {
        assert(slot.skip("worker-"@.len() as int) =~= digits);
        assert("worker-"@ =~= slot.take("worker-"@.len() as int));
    }
}

/// A process is known by its host name, or as local without one, and by its process id.
pub proof fn processes_are_named_by_host_and_id(host_name: Option<Seq<char>>, pid: u32)
    ensures
        host_name matches Some(name) ==> process_host(host_name, pid) == name + seq![':']
            + text::decimal(pid as nat),
        host_name is None ==> process_host(host_name, pid) == "localhost"@ + seq![':']
            + text::decimal(pid as nat),
{
    reveal_strlit(":");
    assert(":"@ =~= seq![':']);
}

/// The wire form is the host, the scheduler instance and the slot, the slot as a decimal
/// numeral behind its prefix.
pub proof fn wire_forms_spell_out_the_identity(id: LeaseIdentity)
    ensures
        id.canonical() == id.host + seq!['/'] + id.scheduler_instance + seq!['/'] + "worker-"@
            + text::decimal(id.worker_slot as nat),
{
    reveal_strlit("/");
    reveal_strlit("worker-");
    reveal_strlit("/worker-");
    assert("/"@ =~= seq!['/']);
    assert("/worker-"@ =~= seq!['/'] + "worker-"@);
    assert(id.canonical() =~= id.host + seq!['/'] + id.scheduler_instance + seq!['/'] + "worker-"@
        + text::decimal(id.worker_slot as nat));
}

} // verus!
