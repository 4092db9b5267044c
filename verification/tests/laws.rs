use symphony_core::blocker::{BlockerId, BlockerSeverity, RunRef};
use symphony_core::handoff::ReadyFor;
use symphony_core::integration::{
    IntegrationId, IntegrationMergeStrategy, IntegrationRecord, IntegrationStatus,
};
use symphony_core::integration_request::IntegrationRequestCause;
use symphony_core::lease::LeaseOwner;
use symphony_core::logical_queue::LogicalQueue;
use symphony_core::pull_request::{PullRequestProvider, PullRequestState};
use symphony_core::qa::{AcceptanceCriterionStatus, QaVerdict};
use symphony_core::qa_blocker_policy::QaBlockerPolicy;
use symphony_core::qa_request::QaRequestCause;
use symphony_core::role::{RoleAuthority, RoleKind, RoleName};
use symphony_core::work_item::{WorkItemId, WorkItemStatusClass};

fn all_differ(names: Vec<&str>) {
    for (i, a) in names.iter().enumerate() {
        for b in &names[i + 1..] {
            assert_ne!(a, b);
        }
    }
}

#[test]
fn names_are_distinct() {
    all_differ(LogicalQueue::ALL.iter().map(|v| v.as_str()).collect());
    all_differ(ReadyFor::ALL.iter().map(|v| v.as_str()).collect());
    all_differ(IntegrationStatus::ALL.iter().map(|v| v.as_str()).collect());
    all_differ(
        IntegrationMergeStrategy::ALL
            .iter()
            .map(|v| v.as_str())
            .collect(),
    );
    all_differ(
        IntegrationRequestCause::ALL
            .iter()
            .map(|v| v.as_str())
            .collect(),
    );
    all_differ(PullRequestState::ALL.iter().map(|v| v.as_str()).collect());
    all_differ(QaVerdict::ALL.iter().map(|v| v.as_str()).collect());
    all_differ(
        AcceptanceCriterionStatus::ALL
            .iter()
            .map(|v| v.as_str())
            .collect(),
    );
    all_differ(QaRequestCause::ALL.iter().map(|v| v.as_str()).collect());
    all_differ(QaBlockerPolicy::ALL.iter().map(|v| v.as_str()).collect());
    all_differ(RoleKind::ALL.iter().map(|v| v.as_str()).collect());
    all_differ(vec![
        BlockerSeverity::Low.as_str(),
        BlockerSeverity::Medium.as_str(),
        BlockerSeverity::High.as_str(),
        BlockerSeverity::Critical.as_str(),
    ]);
    all_differ(vec![
        WorkItemStatusClass::Ready.as_str(),
        WorkItemStatusClass::Running.as_str(),
        WorkItemStatusClass::Blocked.as_str(),
        WorkItemStatusClass::Integration.as_str(),
        WorkItemStatusClass::Qa.as_str(),
        WorkItemStatusClass::Done.as_str(),
        WorkItemStatusClass::Cancelled.as_str(),
        WorkItemStatusClass::Ignore.as_str(),
    ]);
    assert_eq!(PullRequestProvider::ALL.len(), 1);
    assert_eq!(PullRequestProvider::Github.as_str(), "github");
    assert_eq!(ReadyFor::HumanReview.as_str(), "human_review");
    assert_eq!(
        IntegrationMergeStrategy::SequentialCherryPick.as_str(),
        "sequential_cherry_pick"
    );
    assert_eq!(
        QaRequestCause::IntegrationConsolidated.as_str(),
        "integration_consolidated"
    );
}

#[test]
fn lease_owners_read_back_and_differ() {
    let owners: Vec<LeaseOwner> = [("a", "b", 0), ("a", "b", 10), ("a", "bb", 0), ("ab", "b", 0)]
        .into_iter()
        .map(|(h, s, w)| LeaseOwner::new(h.into(), s.into(), w).unwrap())
        .collect();
    for owner in &owners {
        assert_eq!(&LeaseOwner::parse(&owner.as_canonical()).unwrap(), owner);
    }
    let forms: Vec<String> = owners.iter().map(|o| o.as_canonical()).collect();
    all_differ(forms.iter().map(|f| f.as_str()).collect());
}

#[test]
fn a_process_without_a_host_name_is_on_localhost() {
    let owner = LeaseOwner::current_process(None, 77, "sched".into(), 1).unwrap();
    assert_eq!(owner.host(), "localhost:77");
    let owner = LeaseOwner::current_process(Some("box".into()), 77, "sched".into(), 1).unwrap();
    assert_eq!(owner.as_canonical(), "box:77/sched/worker-1");
    assert!(LeaseOwner::current_process(Some("a/b".into()), 77, "sched".into(), 1).is_err());
}

#[test]
fn integration_statuses_partition() {
    for status in IntegrationStatus::ALL {
        let open = matches!(
            status,
            IntegrationStatus::Pending | IntegrationStatus::InProgress
        );
        assert_eq!(status.is_terminal(), !open);
        assert_eq!(status.is_pass(), status == IntegrationStatus::Succeeded);
    }
}

#[test]
fn a_succeeded_record_passes_and_keeps_its_children() {
    let record = IntegrationRecord::try_new(
        IntegrationId::new(1),
        WorkItemId::new(10),
        RoleName::new("platform_lead"),
        Some(RunRef::new(7)),
        IntegrationStatus::Succeeded,
        IntegrationMergeStrategy::SequentialCherryPick,
        Some("symphony/integration/PROJ-42".into()),
        Some("main".into()),
        Some("deadbeef".into()),
        Some("../proj-integration".into()),
        vec![WorkItemId::new(11), WorkItemId::new(12)],
        Some("Consolidated 2 children, all tests green.".into()),
        vec![],
        vec![BlockerId::new(3)],
    )
    .unwrap();
    assert!(record.is_pass());
    assert_eq!(
        record.children(),
        &vec![WorkItemId::new(11), WorkItemId::new(12)]
    );
}

#[test]
fn acceptance_statuses_partition() {
    assert!(AcceptanceCriterionStatus::Verified.is_passing());
    assert!(AcceptanceCriterionStatus::NotApplicable.is_passing());
    assert!(!AcceptanceCriterionStatus::Failed.is_passing());
    assert!(!AcceptanceCriterionStatus::NotVerified.is_passing());
}

#[test]
fn pull_request_states_partition() {
    assert!(PullRequestState::Merged.is_terminal());
    assert!(PullRequestState::Closed.is_terminal());
    assert!(!PullRequestState::Draft.is_terminal());
    assert!(!PullRequestState::Ready.is_terminal());
}

#[test]
fn ids_print_as_bare_integers() {
    assert_eq!(IntegrationId::new(42).to_string(), "42");
    assert_eq!(WorkItemId::new(-7).to_string(), "-7");
}

#[test]
fn no_authority_is_nothing_granted() {
    let none = RoleAuthority::none();
    assert!(!none.can_file_followups);
    assert!(RoleKind::ALL
        .iter()
        .all(|k| RoleAuthority::defaults_for(*k).can_file_followups));
}
