//! The normalised issue model that trackers are mapped to.
use vstd::prelude::*;

verus! {

/// Stable tracker id of an issue.
#[derive(Debug, PartialEq, Eq, PartialOrd, Ord, Hash)]
pub struct IssueId {
    pub id: String,
}

impl View for IssueId {
    type V = Seq<char>;

    open spec fn view(&self) -> Seq<char> {
        self.id@
    }
}

impl Clone for IssueId {
    fn clone(&self) -> (copy: Self)
        ensures
            copy == *self,
    {
        IssueId { id: self.id.clone() }
    }
}

impl IssueId {
    /// Wrap a raw id.
    pub fn new(id: &str) -> (r: Self)
        ensures
            r@ == id@,
    {
        IssueId { id: id.to_owned() }
    }

    /// The raw id.
    pub fn as_str(&self) -> (s: &str)
        ensures
            s@ == self@,
    {
        self.id.as_str()
    }
}

/// Raw tracker state, such as `Todo`.
#[derive(Debug, PartialEq, Eq, PartialOrd, Ord, Hash)]
pub struct IssueState {
    pub state: String,
}

impl View for IssueState {
    type V = Seq<char>;

    open spec fn view(&self) -> Seq<char> {
        self.state@
    }
}

impl Clone for IssueState {
    fn clone(&self) -> (copy: Self)
        ensures
            copy == *self,
    {
        IssueState { state: self.state.clone() }
    }
}

impl IssueState {
    /// Wrap a raw state.
    pub fn new(state: &str) -> (r: Self)
        ensures
            r@ == state@,
    {
        IssueState { state: state.to_owned() }
    }

    /// The raw state.
    pub fn as_str(&self) -> (s: &str)
        ensures
            s@ == self@,
    {
        self.state.as_str()
    }
}

/// One tracker issue.
#[derive(Debug, PartialEq, Eq)]
pub struct Issue {
    /// Stable tracker id.
    pub id: IssueId,
    /// Human-facing identifier, such as `ENG-7`.
    pub identifier: String,
    /// Title.
    pub title: String,
    /// Description, when there is one.
    pub description: Option<String>,
    /// Raw tracker state.
    pub state: IssueState,
    /// Suggested branch name, when the tracker gives one.
    pub branch_name: Option<String>,
    /// Tracker URL, when known.
    pub url: Option<String>,
}

impl Clone for Issue {
    fn clone(&self) -> (copy: Self)
        ensures
            copy == *self,
    {
        Issue {
            id: self.id.clone(),
            identifier: self.identifier.clone(),
            title: self.title.clone(),
            description: self.description.clone(),
            state: self.state.clone(),
            branch_name: self.branch_name.clone(),
            url: self.url.clone(),
        }
    }
}

impl Issue {
    /// An issue with its required fields only.
    pub fn minimal(id: &str, identifier: &str, title: &str, state: &str) -> (r: Self)
        ensures
            r.id@ == id@,
            r.identifier@ == identifier@,
            r.title@ == title@,
            r.state@ == state@,
            r.description is None,
            r.branch_name is None,
            r.url is None,
    {
        Issue {
            id: IssueId::new(id),
            identifier: identifier.to_owned(),
            title: title.to_owned(),
            description: None,
            state: IssueState::new(state),
            branch_name: None,
            url: None,
        }
    }
}

/// Why a tracker could not answer.
#[derive(Debug, Clone, PartialEq, Eq)]
pub enum TrackerError {
    /// The tracker could not be reached.
    Transport(String),
}

} // verus!
