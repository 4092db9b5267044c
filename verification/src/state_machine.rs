//! The claim ledger: which issues are being worked on.
use crate::text;
use crate::tracker::IssueId;
use vstd::prelude::*;

verus! {

/// State of a claim.
#[derive(Debug, Clone, Copy, PartialEq, Eq, Structural)]
pub enum ClaimState {
    /// A dispatch runs for the issue.
    Running,
}

/// Why a claim ended.
#[derive(Debug, Clone, Copy, PartialEq, Eq, Structural)]
pub enum ReleaseReason {
    /// The dispatch ended by itself.
    Completed,
    /// The issue left the active states.
    NoLongerActive,
    /// The dispatch was cancelled.
    Canceled,
}

/// Why a change of the ledger was refused.
#[derive(Debug, Clone, Copy, PartialEq, Eq, Structural)]
pub enum LedgerError {
    /// The issue is claimed already.
    AlreadyClaimed,
    /// The issue is not claimed.
    NotClaimed,
}

/// The claimed issues.
#[derive(Debug)]
pub struct StateMachine {
    issues: Vec<IssueId>,
}

impl View for StateMachine {
    type V = Seq<Seq<char>>;

    /// The ids of the claimed issues, oldest claim first.
    closed spec fn view(&self) -> Seq<Seq<char>> {
        self.issues@.map_values(|id: IssueId| id@)
    }
}

/// The ledger after an issue is claimed; `None` where the claim is refused.
pub open spec fn claimed(ledger: Seq<Seq<char>>, id: Seq<char>) -> Option<Seq<Seq<char>>> {
    if ledger.contains(id) {
        None
    } else {
        Some(ledger.push(id))
    }
}

/// The ledger after an issue is released; `None` where the release is refused.
pub open spec fn released(ledger: Seq<Seq<char>>, id: Seq<char>) -> Option<Seq<Seq<char>>> {
    if ledger.contains(id) {
        Some(ledger.remove(ledger.index_of(id)))
    } else {
        None
    }
}

impl StateMachine {
    #[verifier::type_invariant]
    spec fn well_formed(self) -> bool {
        self@.no_duplicates()
    }

    /// Nothing is claimed.
    pub fn new() -> (r: Self)
        ensures
            r@.len() == 0,
    {
        StateMachine { issues: Vec::new() }
    }

    fn position(&self, id: &IssueId) -> (r: Option<usize>)
        ensures
            match r {
                Some(i) => i < self@.len() && self@[i as int] == id@,
                None => !self@.contains(id@),
            },
    {
        let mut i: usize = 0;
        while i < self.issues.len()
            invariant
                i <= self.issues@.len(),
                forall|j: int| 0 <= j < i ==> self@[j] != id@,
            decreases self.issues@.len() - i,
        {
            if text::same_text(self.issues[i].as_str(), id.as_str()) {
                return Some(i);
            }
            i = i + 1;
        }
        None
    }

    /// State of the claim on an issue, if there is one.
    pub fn get(&self, id: &IssueId) -> (r: Option<ClaimState>)
        ensures
            r == (if self@.contains(id@) {
                Some(ClaimState::Running)
            } else {
                None
            }),
    {
        if self.position(id).is_some() {
            Some(ClaimState::Running)
        } else {
            None
        }
    }

    /// How many claims are running.
    pub fn running_len(&self) -> (n: usize)
        ensures
            n == self@.len(),
    {
        self.issues.len()
    }

    /// Claim an issue; one that is claimed already is refused.
    pub fn claim(&mut self, id: IssueId) -> (r: Result<(), LedgerError>)
        ensures
            match claimed(old(self)@, id@) {
                Some(ledger) => r is Ok && final(self)@ == ledger,
                None => r is Err && final(self)@ == old(self)@,
            },
            r == (if old(self)@.contains(id@) {
                Err::<(), LedgerError>(LedgerError::AlreadyClaimed)
            } else {
                Ok(())
            }),
            final(self)@ == (if r is Ok {
                old(self)@.push(id@)
            } else {
                old(self)@
            }),
    {
        proof {
            use_type_invariant(&*self);
        }
        if self.position(&id).is_some() {
            return Err(LedgerError::AlreadyClaimed);
        }
        let ghost before = self@;
        let mut issues: Vec<IssueId> = Vec::new();
        std::mem::swap(&mut issues, &mut self.issues);
        issues.push(id);
        assert(issues@.map_values(|id: IssueId| id@) =~= before.push(id@));
        self.issues = issues;
        Ok(())
    }

    /// Release the claim on an issue; one that is not claimed is refused.
    pub fn release(&mut self, id: &IssueId) -> (r: Result<(), LedgerError>)
        ensures
            match released(old(self)@, id@) {
                Some(ledger) => r is Ok && final(self)@ == ledger,
                None => r is Err && final(self)@ == old(self)@,
            },
            r == (if old(self)@.contains(id@) {
                Ok::<(), LedgerError>(())
            } else {
                Err(LedgerError::NotClaimed)
            }),
            final(self)@ == (if r is Ok {
                old(self)@.remove(old(self)@.index_of(id@))
            } else {
                old(self)@
            }),
    {
        proof {
            use_type_invariant(&*self);
        }
        match self.position(id) {
            None => Err(LedgerError::NotClaimed),
            Some(i) => {
                let ghost before = self@;
                let mut issues: Vec<IssueId> = Vec::new();
                std::mem::swap(&mut issues, &mut self.issues);
                let _gone = issues.remove(i);
                assert(before.index_of(id@) == i);
                assert(issues@.map_values(|id: IssueId| id@) =~= before.remove(i as int));
                self.issues = issues;
                Ok(())
            },
        }
    }
}

/// Releasing what was just claimed leaves the ledger as it was.
pub proof fn releasing_undoes_claiming(ledger: Seq<Seq<char>>, id: Seq<char>)
    requires
        !ledger.contains(id),
    ensures
        ledger.push(id).contains(id),
        ledger.push(id).remove(ledger.push(id).index_of(id)) == ledger,
{
    let claimed = ledger.push(id);
    assert(claimed[ledger.len() as int] == id);
    let i = claimed.index_of(id);
    assert(0 <= i < claimed.len() && claimed[i] == id);
    if i < ledger.len() {
        assert(ledger[i] == id);
    }
    assert(claimed.remove(i) =~= ledger);
}

/// An issue is claimed exactly when it was not; the claim goes behind the others, and
/// releasing it again gives the ledger back.
pub proof fn claims_are_added_once(ledger: Seq<Seq<char>>, id: Seq<char>)
    ensures
        claimed(ledger, id) is Some <==> forall|i: int|
            0 <= i < ledger.len() ==> #[trigger] ledger[i] != id,
        claimed(ledger, id) matches Some(now) ==> {
            &&& now.len() == ledger.len() + 1
            &&& now.last() == id
            &&& forall|i: int| 0 <= i < ledger.len() ==> #[trigger] now[i] == ledger[i]
            &&& claimed(now, id) is None
            &&& released(now, id) == Some(ledger)
        },
{
    if !ledger.contains(id) {
        releasing_undoes_claiming(ledger, id);
        assert forall|i: int| 0 <= i < ledger.len() implies #[trigger] ledger[i] != id by {
            assert(ledger.contains(ledger[i]));
        }
    }
}

/// An issue is released exactly when it was claimed; no other claim goes, and their order
/// stays.
pub proof fn releases_take_off_one_claim(ledger: Seq<Seq<char>>, id: Seq<char>, at: int)
    requires
        ledger.no_duplicates(),
    ensures
        released(ledger, id) is Some <==> exists|i: int|
            0 <= i < ledger.len() && #[trigger] ledger[i] == id,
        0 <= at < ledger.len() && ledger[at] == id ==> (released(ledger, id) matches Some(now) && {
            &&& now.len() + 1 == ledger.len()
            &&& forall|i: int| 0 <= i < at ==> #[trigger] now[i] == ledger[i]
            &&& forall|i: int| at <= i < now.len() ==> #[trigger] now[i] == ledger[i + 1]
            &&& released(now, id) is None
        }),
{
    if ledger.contains(id) {
        let p = ledger.index_of(id);
        assert(0 <= p < ledger.len() && ledger[p] == id);
        let now = ledger.remove(p);
        assert(!now.contains(id)) by {
            if now.contains(id) {
                let i = choose|i: int| 0 <= i < now.len() && now[i] == id;
                assert(ledger[if i < p { i } else { i + 1 }] == id);
            }
        }
    }
}

} // verus!
