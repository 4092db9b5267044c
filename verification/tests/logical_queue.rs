use symphony_core::logical_queue::{LogicalQueue, QueueTickOutcome};

#[test]
fn all_lists_every_variant_in_declaration_order() {
    let names: Vec<_> = LogicalQueue::ALL.iter().map(|q| q.as_str()).collect();
    assert_eq!(
        names,
        vec![
            "intake",
            "specialist",
            "integration",
            "qa",
            "followup_approval",
            "budget_pause",
            "recovery",
        ]
    );
}

#[test]
fn display_matches_as_str_for_every_variant() {
    for q in LogicalQueue::ALL {
        assert_eq!(q.to_string(), q.as_str());
    }
}

#[test]
fn outcome_idle_constructor_produces_zeroed_counts_for_queue() {
    for q in LogicalQueue::ALL {
        let o = QueueTickOutcome::idle(q);
        assert_eq!(o.queue, q);
        assert_eq!(o.considered, 0);
        assert_eq!(o.processed, 0);
        assert_eq!(o.deferred, 0);
        assert_eq!(o.errors, 0);
        assert!(o.is_idle());
    }
}

#[test]
fn outcome_is_idle_only_when_all_counts_zero() {
    let mut o = QueueTickOutcome::idle(LogicalQueue::Specialist);
    assert!(o.is_idle());
    o.considered = 1;
    assert!(!o.is_idle());
    o = QueueTickOutcome::idle(LogicalQueue::Specialist);
    o.processed = 1;
    assert!(!o.is_idle());
    o = QueueTickOutcome::idle(LogicalQueue::Specialist);
    o.deferred = 1;
    assert!(!o.is_idle());
    o = QueueTickOutcome::idle(LogicalQueue::Specialist);
    o.errors = 1;
    assert!(!o.is_idle());
}

#[test]
fn outcome_default_uses_intake_with_zero_counts() {
    let o = QueueTickOutcome::default();
    assert_eq!(o.queue, LogicalQueue::Intake);
    assert!(o.is_idle());
}
