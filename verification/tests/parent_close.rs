use symphony_core::parent_close::{ChildSnapshot, ParentCloseError, check_parent_can_close};
use symphony_core::work_item::{WorkItemId, WorkItemStatusClass};

fn snap(id: i64, ident: &str, class: WorkItemStatusClass, required: bool) -> ChildSnapshot {
    ChildSnapshot {
        id: WorkItemId::new(id),
        identifier: ident.into(),
        status_class: class,
        required,
    }
}

#[test]
fn parent_with_no_children_can_close_to_done() {
    check_parent_can_close(WorkItemStatusClass::Done, &[]).unwrap();
}

#[test]
fn parent_with_no_children_can_close_to_cancelled() {
    check_parent_can_close(WorkItemStatusClass::Cancelled, &[]).unwrap();
}

#[test]
fn non_terminal_target_is_rejected() {
    let err = check_parent_can_close(WorkItemStatusClass::Running, &[]).unwrap_err();
    assert_eq!(
        err,
        ParentCloseError::TargetNotTerminal(WorkItemStatusClass::Running)
    );
}

#[test]
fn all_terminal_required_children_pass() {
    let kids = [
        snap(1, "ENG-2", WorkItemStatusClass::Done, true),
        snap(2, "ENG-3", WorkItemStatusClass::Cancelled, true),
    ];
    check_parent_can_close(WorkItemStatusClass::Done, &kids).unwrap();
}

#[test]
fn one_running_required_child_blocks_close() {
    let kids = [
        snap(1, "ENG-2", WorkItemStatusClass::Done, true),
        snap(2, "ENG-3", WorkItemStatusClass::Running, true),
    ];
    let err = check_parent_can_close(WorkItemStatusClass::Done, &kids).unwrap_err();
    match err {
        ParentCloseError::ChildrenNotTerminal { non_terminal } => {
            assert_eq!(non_terminal.len(), 1);
            assert_eq!(non_terminal[0].identifier, "ENG-3");
            assert_eq!(non_terminal[0].status_class, WorkItemStatusClass::Running);
        }
        other => panic!("expected ChildrenNotTerminal, got {other:?}"),
    }
}

#[test]
fn waived_non_required_non_terminal_child_is_ignored() {
    let kids = [
        snap(1, "ENG-2", WorkItemStatusClass::Done, true),
        snap(2, "ENG-3", WorkItemStatusClass::Blocked, false),
    ];
    check_parent_can_close(WorkItemStatusClass::Done, &kids).unwrap();
}

#[test]
fn non_terminal_children_reported_in_input_order() {
    let kids = [
        snap(1, "ENG-2", WorkItemStatusClass::Running, true),
        snap(2, "ENG-3", WorkItemStatusClass::Done, true),
        snap(3, "ENG-4", WorkItemStatusClass::Blocked, true),
        snap(4, "ENG-5", WorkItemStatusClass::Qa, true),
    ];
    let err = check_parent_can_close(WorkItemStatusClass::Done, &kids).unwrap_err();
    let ParentCloseError::ChildrenNotTerminal { non_terminal } = err else {
        panic!("expected ChildrenNotTerminal");
    };
    let idents: Vec<_> = non_terminal.iter().map(|c| c.identifier.as_str()).collect();
    assert_eq!(idents, vec!["ENG-2", "ENG-4", "ENG-5"]);
}

#[test]
fn ignore_status_class_does_not_count_as_terminal() {
    let kids = [snap(1, "ENG-2", WorkItemStatusClass::Ignore, true)];
    let err = check_parent_can_close(WorkItemStatusClass::Done, &kids).unwrap_err();
    match err {
        ParentCloseError::ChildrenNotTerminal { non_terminal } => {
            assert_eq!(non_terminal.len(), 1);
            assert_eq!(non_terminal[0].status_class, WorkItemStatusClass::Ignore);
        }
        other => panic!("unexpected variant: {other:?}"),
    }
}

#[test]
fn mix_of_waived_and_required_only_reports_required() {
    let kids = [
        snap(1, "ENG-2", WorkItemStatusClass::Running, false),
        snap(2, "ENG-3", WorkItemStatusClass::Running, true),
    ];
    let err = check_parent_can_close(WorkItemStatusClass::Cancelled, &kids).unwrap_err();
    let ParentCloseError::ChildrenNotTerminal { non_terminal } = err else {
        panic!("expected ChildrenNotTerminal");
    };
    assert_eq!(non_terminal.len(), 1);
    assert_eq!(non_terminal[0].identifier, "ENG-3");
}

#[test]
fn error_message_for_target_not_terminal_names_the_class() {
    let err = check_parent_can_close(WorkItemStatusClass::Qa, &[]).unwrap_err();
    let msg = err.to_string();
    assert!(msg.contains("qa"), "message should embed class name: {msg}");
}

#[test]
fn error_message_for_children_includes_count() {
    let kids = [
        snap(1, "ENG-2", WorkItemStatusClass::Running, true),
        snap(2, "ENG-3", WorkItemStatusClass::Blocked, true),
    ];
    let err = check_parent_can_close(WorkItemStatusClass::Done, &kids).unwrap_err();
    let msg = err.to_string();
    assert!(msg.contains("2"), "message should include count: {msg}");
}
