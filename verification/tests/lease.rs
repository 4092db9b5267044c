use symphony_core::lease::{LeaseOwner, LeaseOwnerParseError};

#[test]
fn display_uses_canonical_format() {
    let owner = LeaseOwner::new("hostname:1234".into(), "scheduler-1".into(), 0).unwrap();
    assert_eq!(owner.to_string(), "hostname:1234/scheduler-1/worker-0");
    assert_eq!(owner.as_canonical(), "hostname:1234/scheduler-1/worker-0");
}

#[test]
fn round_trip_through_string() {
    let original = LeaseOwner::new("host-a".into(), "scheduler-2".into(), 7).unwrap();
    let wire: String = original.clone().into();
    let parsed: LeaseOwner = wire.parse().unwrap();
    assert_eq!(original, parsed);
    assert_eq!(parsed.host(), "host-a");
    assert_eq!(parsed.scheduler_instance(), "scheduler-2");
    assert_eq!(parsed.worker_slot(), 7);
}

#[test]
fn parse_rejects_missing_components() {
    assert_eq!(
        "host-only".parse::<LeaseOwner>().unwrap_err(),
        LeaseOwnerParseError::MissingComponent,
    );
    assert_eq!(
        "host/scheduler".parse::<LeaseOwner>().unwrap_err(),
        LeaseOwnerParseError::MissingComponent,
    );
}

#[test]
fn parse_rejects_trailing_components() {
    assert_eq!(
        "host/sched/worker-0/extra"
            .parse::<LeaseOwner>()
            .unwrap_err(),
        LeaseOwnerParseError::TrailingComponents,
    );
}

#[test]
fn parse_rejects_missing_worker_prefix() {
    assert_eq!(
        "host/sched/0".parse::<LeaseOwner>().unwrap_err(),
        LeaseOwnerParseError::MissingWorkerPrefix,
    );
}

#[test]
fn parse_rejects_invalid_worker_slot() {
    assert_eq!(
        "host/sched/worker-abc".parse::<LeaseOwner>().unwrap_err(),
        LeaseOwnerParseError::InvalidWorkerSlot,
    );
}

#[test]
fn new_rejects_empty_components() {
    assert_eq!(
        LeaseOwner::new("".into(), "sched".into(), 0).unwrap_err(),
        LeaseOwnerParseError::EmptyComponent { field: "host" },
    );
    assert_eq!(
        LeaseOwner::new("host".into(), "".into(), 0).unwrap_err(),
        LeaseOwnerParseError::EmptyComponent {
            field: "scheduler_instance"
        },
    );
}

#[test]
fn new_rejects_reserved_separator() {
    assert_eq!(
        LeaseOwner::new("ho/st".into(), "sched".into(), 0).unwrap_err(),
        LeaseOwnerParseError::ReservedSeparator { field: "host" },
    );
    assert_eq!(
        LeaseOwner::new("host".into(), "sch/ed".into(), 0).unwrap_err(),
        LeaseOwnerParseError::ReservedSeparator {
            field: "scheduler_instance"
        },
    );
}

#[test]
fn current_process_produces_round_trippable_owner() {
    let owner = LeaseOwner::current_process(Some("host-a".into()), 4242, "scheduler-test".into(), 0).unwrap();
    let parsed: LeaseOwner = owner.to_string().parse().unwrap();
    assert_eq!(owner, parsed);
    assert_eq!(parsed.scheduler_instance(), "scheduler-test");
    assert_eq!(parsed.worker_slot(), 0);
    assert!(!parsed.host().is_empty());
}
