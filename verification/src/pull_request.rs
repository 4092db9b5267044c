//! Pull-request records kept by the integration owner.
use crate::blocker::RunRef;
use crate::integration::IntegrationId;
use crate::role::RoleName;
use crate::text;
use crate::work_item::WorkItemId;
use vstd::prelude::*;

verus! {

/// Primary key of a [`PullRequestRecord`].
#[derive(Debug, Clone, Copy, PartialEq, Eq, PartialOrd, Ord, Hash, Structural)]
pub struct PullRequestRecordId(pub i64);

impl PullRequestRecordId {
    /// Wrap a raw key.
    pub fn new(id: i64) -> (r: Self)
        ensures
            r == PullRequestRecordId(id),
    {
        PullRequestRecordId(id)
    }

    /// The raw key.
    pub fn get(self) -> (id: i64)
        ensures
            self == PullRequestRecordId(id),
    {
        self.0
    }

    /// The key as a decimal numeral.
    pub fn to_string(&self) -> (s: String)
        ensures
            s@ == text::signed_decimal(self.0 as int),
    {
        text::signed_decimal_text(self.0)
    }
}

/// Forge adapter that produced the pull request.
#[derive(Debug, Clone, Copy, PartialEq, Eq, PartialOrd, Ord, Hash, Structural)]
pub enum PullRequestProvider {
    /// GitHub.
    Github,
}

impl PullRequestProvider {
    /// All variants in declaration order.
    pub const ALL: [PullRequestProvider; 1] = [PullRequestProvider::Github];

    /// Stable lowercase identifier.
    pub open spec fn text(self) -> Seq<char> {
        match self {
            PullRequestProvider::Github => "github"@,
        }
    }

    /// Stable lowercase identifier used in configuration and payloads.
    pub fn as_str(self) -> (s: &'static str)
        ensures
            s@ == self.text(),
    {
        match self {
            PullRequestProvider::Github => "github",
        }
    }
}

/// Lifecycle of a pull request.
#[derive(Debug, Clone, Copy, PartialEq, Eq, PartialOrd, Ord, Hash, Structural)]
pub enum PullRequestState {
    /// Opened as a draft; quality assurance runs against it.
    Draft,
    /// Ready for review.
    Ready,
    /// Merged into the base ref.
    Merged,
    /// Closed without merging.
    Closed,
}

impl PullRequestState {
    /// All variants in declaration order.
    pub const ALL: [PullRequestState; 4] = [
        PullRequestState::Draft,
        PullRequestState::Ready,
        PullRequestState::Merged,
        PullRequestState::Closed,
    ];

    /// Stable lowercase identifier.
    pub open spec fn text(self) -> Seq<char> {
        match self {
            PullRequestState::Draft => "draft"@,
            PullRequestState::Ready => "ready"@,
            PullRequestState::Merged => "merged"@,
            PullRequestState::Closed => "closed"@,
        }
    }

    /// Stable lowercase identifier used in configuration and payloads.
    pub fn as_str(self) -> (s: &'static str)
        ensures
            s@ == self.text(),
    {
        match self {
            PullRequestState::Draft => "draft",
            PullRequestState::Ready => "ready",
            PullRequestState::Merged => "merged",
            PullRequestState::Closed => "closed",
        }
    }

    /// True when no further state changes are expected.
    pub fn is_terminal(self) -> (b: bool)
        ensures
            b == (self is Merged || self is Closed),
    {
        matches!(self, PullRequestState::Merged | PullRequestState::Closed)
    }
}

/// Invariant violations for [`PullRequestRecord::try_new`].
#[derive(Debug, Clone, PartialEq, Eq)]
pub enum PullRequestRecordError {
    /// `title` is empty or blank.
    EmptyTitle,
    /// `head_branch` is empty or blank.
    EmptyHeadBranch,
    /// An optional field was given as an empty text.
    EmptyOptionalField(&'static str),
    /// The state requires a forge-assigned number.
    MissingNumber(PullRequestState),
    /// A merged pull request has no URL.
    MissingUrlForMerged,
}

/// Durable pull-request record.
#[derive(Debug, Clone, PartialEq, Eq)]
pub struct PullRequestRecord {
    /// Primary key.
    pub id: PullRequestRecordId,
    /// Work item the pull request is for.
    pub parent_id: WorkItemId,
    /// Role that owned the side effect.
    pub owner_role: RoleName,
    /// Run that produced the row, when one exists.
    pub run_id: Option<RunRef>,
    /// Integration record that the pull request consolidates from.
    pub integration_id: Option<IntegrationId>,
    /// Forge adapter.
    pub provider: PullRequestProvider,
    /// Lifecycle state.
    pub state: PullRequestState,
    /// Forge-assigned number.
    pub number: Option<i64>,
    /// Canonical URL on the forge.
    pub url: Option<String>,
    /// Head ref proposed for merging.
    pub head_branch: String,
    /// Base ref targeted.
    pub base_branch: Option<String>,
    /// Head commit at record time, when known.
    pub head_sha: Option<String>,
    /// Rendered title.
    pub title: String,
    /// Rendered body.
    pub body: Option<String>,
    /// CI rollup captured by the integration owner.
    pub ci_status: Option<String>,
}

/// An optional text that was given, and is empty.
pub open spec fn given_empty(value: Option<String>) -> bool {
    value is Some && value->0@.len() == 0
}

fn is_given_empty(value: &Option<String>) -> (b: bool)
    ensures
        b == given_empty(*value),
{
    match value {
        Some(s) => s.as_str().is_empty(),
        None => false,
    }
}

impl PullRequestRecord {
    /// The first rule that the record breaks, if any.
    pub open spec fn violation(self) -> Option<PullRequestRecordError> {
        if text::is_blank(self.title@) {
            Some(PullRequestRecordError::EmptyTitle)
        } else if text::is_blank(self.head_branch@) {
            Some(PullRequestRecordError::EmptyHeadBranch)
        } else if given_empty(self.base_branch) {
            Some(PullRequestRecordError::EmptyOptionalField("base_branch"))
        } else if given_empty(self.head_sha) {
            Some(PullRequestRecordError::EmptyOptionalField("head_sha"))
        } else if given_empty(self.url) {
            Some(PullRequestRecordError::EmptyOptionalField("url"))
        } else if !(self.state is Draft) && self.number is None {
            Some(PullRequestRecordError::MissingNumber(self.state))
        } else if self.state is Merged && text::is_missing_or_blank(self.url) {
            Some(PullRequestRecordError::MissingUrlForMerged)
        } else {
            None
        }
    }

    /// The record keeps every rule.
    pub open spec fn well_formed(self) -> bool {
        self.violation() is None
    }

    /// Construct a record, or report the first rule that it would break.
    pub fn try_new(
        id: PullRequestRecordId,
        parent_id: WorkItemId,
        owner_role: RoleName,
        run_id: Option<RunRef>,
        integration_id: Option<IntegrationId>,
        provider: PullRequestProvider,
        state: PullRequestState,
        number: Option<i64>,
        url: Option<String>,
        head_branch: String,
        base_branch: Option<String>,
        head_sha: Option<String>,
        title: String,
        body: Option<String>,
        ci_status: Option<String>,
    ) -> (r: Result<Self, PullRequestRecordError>)
        ensures
            ({
                let record = PullRequestRecord {
                    id,
                    parent_id,
                    owner_role,
                    run_id,
                    integration_id,
                    provider,
                    state,
                    number,
                    url,
                    head_branch,
                    base_branch,
                    head_sha,
                    title,
                    body,
                    ci_status,
                };
                match record.violation() {
                    Some(e) => r == Err::<PullRequestRecord, PullRequestRecordError>(e),
                    None => r == Ok::<PullRequestRecord, PullRequestRecordError>(record),
                }
            }),
    {
        if text::blank(title.as_str()) {
            return Err(PullRequestRecordError::EmptyTitle);
        }
        if text::blank(head_branch.as_str()) {
            return Err(PullRequestRecordError::EmptyHeadBranch);
        }
        if is_given_empty(&base_branch) {
            return Err(PullRequestRecordError::EmptyOptionalField("base_branch"));
        }
        if is_given_empty(&head_sha) {
            return Err(PullRequestRecordError::EmptyOptionalField("head_sha"));
        }
        if is_given_empty(&url) {
            return Err(PullRequestRecordError::EmptyOptionalField("url"));
        }
        if !matches!(state, PullRequestState::Draft) && number.is_none() {
            return Err(PullRequestRecordError::MissingNumber(state));
        }
        if matches!(state, PullRequestState::Merged) && text::missing_or_blank(&url) {
            return Err(PullRequestRecordError::MissingUrlForMerged);
        }
        Ok(
            PullRequestRecord {
                id,
                parent_id,
                owner_role,
                run_id,
                integration_id,
                provider,
                state,
                number,
                url,
                head_branch,
                base_branch,
                head_sha,
                title,
                body,
                ci_status,
            },
        )
    }

    /// True when the pull request has merged.
    pub fn is_merged(&self) -> (b: bool)
        ensures
            b == (self.state is Merged),
    {
        matches!(self.state, PullRequestState::Merged)
    }
}

/// A well-formed record always has a title and a head branch; once it has left
/// the draft state it carries its number, and once merged its URL.
pub proof fn well_formed_records_can_be_linked(r: PullRequestRecord)
    requires
        r.well_formed(),
    ensures
        !text::is_blank(r.title@),
        !text::is_blank(r.head_branch@),
        !(r.state is Draft) ==> r.number is Some,
        r.state is Merged ==> !text::is_missing_or_blank(r.url),
{
}

/// Different values of [`PullRequestState`] have different names.
pub proof fn pull_request_state_names_are_distinct(a: PullRequestState, b: PullRequestState)
    requires
        a.text() == b.text(),
    ensures
        a == b,
{
    reveal_strlit("draft");
    assert("draft"@.len() == 5);
    reveal_strlit("ready");
    assert("ready"@.len() == 5);
    reveal_strlit("merged");
    assert("merged"@.len() == 6);
    reveal_strlit("closed");
    assert("closed"@.len() == 6);
    assert("draft"@[0] != "ready"@[0]);
    assert("merged"@[0] != "closed"@[0]);
}

/// Every value of [`PullRequestProvider`] is listed.
pub proof fn every_pull_request_provider_is_listed(value: PullRequestProvider)
    ensures
        PullRequestProvider::ALL@.contains(value),
{
    let all = PullRequestProvider::ALL@;
    assert(all[0] == PullRequestProvider::Github);
}

/// Every value of [`PullRequestState`] is listed.
pub proof fn every_pull_request_state_is_listed(value: PullRequestState)
    ensures
        PullRequestState::ALL@.contains(value),
{
    let all = PullRequestState::ALL@;
    assert(all[0] == PullRequestState::Draft);
    assert(all[1] == PullRequestState::Ready);
    assert(all[2] == PullRequestState::Merged);
    assert(all[3] == PullRequestState::Closed);
}

/// A name stands for one value of [`PullRequestProvider`], the one it says.
pub proof fn pull_request_provider_names_say_their_value(value: PullRequestProvider)
    ensures
        value.text() == "github"@ <==> value is Github,
{
}

/// A name stands for one value of [`PullRequestState`], the one it says.
pub proof fn pull_request_state_names_say_their_value(value: PullRequestState)
    ensures
        value.text() == "draft"@ <==> value is Draft,
        value.text() == "ready"@ <==> value is Ready,
        value.text() == "merged"@ <==> value is Merged,
        value.text() == "closed"@ <==> value is Closed,
{
    if value.text() == "draft"@ {
        pull_request_state_names_are_distinct(value, PullRequestState::Draft);
    }
    if value.text() == "ready"@ {
        pull_request_state_names_are_distinct(value, PullRequestState::Ready);
    }
    if value.text() == "merged"@ {
        pull_request_state_names_are_distinct(value, PullRequestState::Merged);
    }
    if value.text() == "closed"@ {
        pull_request_state_names_are_distinct(value, PullRequestState::Closed);
    }
}

/// Which records are accepted, and which error any other one gets, in the order in which
/// the rules are looked at.
pub proof fn the_first_broken_rule_of_a_record_is_reported(r: PullRequestRecord)
    ensures
        ({
            let untitled = text::is_blank(r.title@);
            let headless = text::is_blank(r.head_branch@);
            let empty_base = r.base_branch is Some && r.base_branch->0@.len() == 0;
            let empty_sha = r.head_sha is Some && r.head_sha->0@.len() == 0;
            let empty_url = r.url is Some && r.url->0@.len() == 0;
            let unnumbered = r.state != PullRequestState::Draft && r.number is None;
            let unlinked = r.state == PullRequestState::Merged && (r.url is None || text::is_blank(
                r.url->0@,
            ));
            &&& r.violation() is None <==> !untitled && !headless && !empty_base && !empty_sha
                && !empty_url && !unnumbered && !unlinked
            &&& r.violation() == Some(PullRequestRecordError::EmptyTitle) <==> untitled
            &&& r.violation() == Some(PullRequestRecordError::EmptyHeadBranch) <==> !untitled
                && headless
            &&& r.violation() == Some(PullRequestRecordError::EmptyOptionalField("base_branch"))
                <==> !untitled && !headless && empty_base
            &&& r.violation() == Some(PullRequestRecordError::EmptyOptionalField("head_sha"))
                <==> !untitled && !headless && !empty_base && empty_sha
            &&& r.violation() == Some(PullRequestRecordError::EmptyOptionalField("url"))
                <==> !untitled && !headless && !empty_base && !empty_sha && empty_url
            &&& r.violation() == Some(PullRequestRecordError::MissingNumber(r.state))
                <==> !untitled && !headless && !empty_base && !empty_sha && !empty_url && unnumbered
            &&& r.violation() == Some(PullRequestRecordError::MissingUrlForMerged) <==> !untitled
                && !headless && !empty_base && !empty_sha && !empty_url && !unnumbered && unlinked
        }),
{
    reveal_strlit("base_branch");
    assert("base_branch"@.len() == 11);
    reveal_strlit("head_sha");
    assert("head_sha"@.len() == 8);
    reveal_strlit("url");
    assert("url"@.len() == 3);
    assert("base_branch" != "head_sha");
}

} // verus!
