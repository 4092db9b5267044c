use symphony_core::blocker::{BlockerId, BlockerSeverity};
use symphony_core::prompt::{PromptBlocker, PromptChild, PromptContext, PromptParent, PromptWorkspace, RenderError, default_handoff_output_schema, render};
use symphony_core::role::{RoleContext, RoleKind};
use symphony_core::tracker::Issue;
use symphony_core::work_item::WorkItemId;

fn issue() -> Issue {
    let mut i = Issue::minimal("id-1", "ENG-7", "Add fizz to buzz", "Todo");
    i.description = Some("steps:\n1. fizz\n2. buzz".into());
    i.branch_name = Some("feature/eng-7".into());
    i.url = Some("https://example.test/eng-7".into());
    i
}

#[test]
fn for_issue_carries_every_issue_field_into_the_substitution_surface() {
    let ctx = PromptContext::for_issue(&issue());
    let tpl = "Issue {{identifier}}: {{title}}\nState: {{state}}\nBranch: {{branch_name}}\nURL: {{url}}\n{{description}}";
    let out = render(tpl, &ctx).unwrap();
    assert!(out.contains("Issue ENG-7: Add fizz to buzz"));
    assert!(out.contains("State: Todo"));
    assert!(out.contains("Branch: feature/eng-7"));
    assert!(out.contains("URL: https://example.test/eng-7"));
    assert!(out.contains("1. fizz"));
}

#[test]
fn missing_optional_issue_fields_render_as_empty_strings() {
    let mut i = Issue::minimal("id-2", "ENG-8", "T", "Todo");
    i.description = None;
    i.branch_name = None;
    i.url = None;
    let ctx = PromptContext::for_issue(&i);
    let out = render("[{{description}}][{{branch_name}}][{{url}}]", &ctx).unwrap();
    assert_eq!(out, "[][][]");
}

#[test]
fn unknown_top_level_placeholder_returns_error() {
    let ctx = PromptContext::for_issue(&issue());
    let err = render("hello {{nope}}", &ctx).unwrap_err();
    assert_eq!(err, RenderError::UnknownPath("nope".into()));
}

#[test]
fn unknown_subfield_returns_error() {
    let ctx = PromptContext::for_issue(&issue());
    let err = render("hello {{role.bogus}}", &ctx).unwrap_err();
    assert_eq!(err, RenderError::UnknownPath("role.bogus".into()));
}

#[test]
fn unclosed_placeholder_returns_malformed_error() {
    let ctx = PromptContext::for_issue(&issue());
    let err = render("hello {{identifier", &ctx).unwrap_err();
    assert!(matches!(err, RenderError::Malformed(_)));
}

#[test]
fn empty_placeholder_returns_invalid_path_error() {
    let ctx = PromptContext::for_issue(&issue());
    let err = render("hello {{ }}", &ctx).unwrap_err();
    assert!(matches!(err, RenderError::InvalidPath(_)));
}

#[test]
fn whitespace_around_path_is_trimmed() {
    let ctx = PromptContext::for_issue(&issue());
    let out = render("[{{  identifier  }}]", &ctx).unwrap();
    assert_eq!(out, "[ENG-7]");
}

#[test]
fn role_fields_render_when_role_is_present() {
    let role = RoleContext::from_kind("platform_lead", RoleKind::IntegrationOwner);
    let ctx = PromptContext::for_issue(&issue()).with_role(role);
    let out = render(
        "role={{role.name}} kind={{role.kind}} grants=[{{role.authority}}]",
        &ctx,
    )
    .unwrap();
    assert!(out.contains("role=platform_lead"));
    assert!(out.contains("kind=integration_owner"));
    assert!(
        out.contains("grants=[can_decompose, can_assign, can_request_qa, can_close_parent]"),
        "got: {out}"
    );
}

#[test]
fn role_fields_render_as_empty_when_role_is_absent() {
    let ctx = PromptContext::for_issue(&issue());
    let out = render(
        "role=[{{role.name}}] kind=[{{role.kind}}] grants=[{{role.authority}}]",
        &ctx,
    )
    .unwrap();
    assert_eq!(out, "role=[] kind=[] grants=[]");
}

#[test]
fn workspace_fields_render_when_workspace_is_present() {
    let ws = PromptWorkspace {
        path: "/tmp/wt/eng-7".into(),
        strategy: "git_worktree".into(),
        branch: Some("symphony/eng-7".into()),
        base_ref: Some("main".into()),
    };
    let ctx = PromptContext::for_issue(&issue()).with_workspace(ws);
    let out = render(
        "ws={{workspace.path}} s={{workspace.strategy}} b={{workspace.branch}} base={{workspace.base_ref}}",
        &ctx,
    )
    .unwrap();
    assert_eq!(
        out,
        "ws=/tmp/wt/eng-7 s=git_worktree b=symphony/eng-7 base=main"
    );
}

#[test]
fn workspace_fields_render_as_empty_when_workspace_is_absent() {
    let ctx = PromptContext::for_issue(&issue());
    let out = render(
        "[{{workspace.path}}][{{workspace.strategy}}][{{workspace.branch}}][{{workspace.base_ref}}]",
        &ctx,
    )
    .unwrap();
    assert_eq!(out, "[][][][]");
}

#[test]
fn parent_fields_render_when_parent_is_present() {
    let ctx = PromptContext::for_issue(&issue()).with_parent(PromptParent {
        identifier: "ENG-1".into(),
        title: "Broad parent".into(),
        url: Some("https://example.test/eng-1".into()),
    });
    let out = render(
        "parent={{parent.identifier}}|{{parent.title}}|{{parent.url}}",
        &ctx,
    )
    .unwrap();
    assert_eq!(out, "parent=ENG-1|Broad parent|https://example.test/eng-1");
}

#[test]
fn children_render_as_bullet_list() {
    let ctx = PromptContext::for_issue(&issue()).with_children(vec![
        PromptChild {
            identifier: "ENG-8".into(),
            title: "Child A".into(),
            status: "Done".into(),
        },
        PromptChild {
            identifier: "ENG-9".into(),
            title: "Child B".into(),
            status: "In Progress".into(),
        },
    ]);
    let out = render("children:\n{{children}}", &ctx).unwrap();
    assert_eq!(
        out,
        "children:\n- ENG-8: Child A [Done]\n- ENG-9: Child B [In Progress]"
    );
}

#[test]
fn empty_children_list_renders_as_empty_string() {
    let ctx = PromptContext::for_issue(&issue());
    let out = render("children:[{{children}}]", &ctx).unwrap();
    assert_eq!(out, "children:[]");
}

#[test]
fn blockers_render_with_severity_and_reason() {
    let ctx = PromptContext::for_issue(&issue()).with_blockers(vec![
        PromptBlocker {
            id: Some(BlockerId::new(1)),
            blocking_id: Some(WorkItemId::new(42)),
            reason: "schema not approved".into(),
            severity: BlockerSeverity::High,
        },
        PromptBlocker {
            id: None,
            blocking_id: None,
            reason: "vendor outage".into(),
            severity: BlockerSeverity::Medium,
        },
    ]);
    let out = render("blockers:\n{{blockers}}", &ctx).unwrap();
    assert_eq!(
        out,
        "blockers:\n- [high] schema not approved\n- [medium] vendor outage"
    );
}

#[test]
fn acceptance_criteria_render_as_bullet_list() {
    let ctx = PromptContext::for_issue(&issue())
        .with_acceptance_criteria(vec!["tests pass".into(), "no clippy warnings".into()]);
    let out = render("ac:\n{{acceptance_criteria}}", &ctx).unwrap();
    assert_eq!(out, "ac:\n- tests pass\n- no clippy warnings");
}

#[test]
fn output_schema_is_inserted_verbatim() {
    let schema = "{\"summary\": \"...\"}";
    let ctx = PromptContext::for_issue(&issue()).with_output_schema(schema);
    let out = render("emit:\n{{output_schema}}", &ctx).unwrap();
    assert_eq!(out, format!("emit:\n{schema}"));
}

#[test]
fn output_schema_renders_as_empty_string_when_unset() {
    let ctx = PromptContext::for_issue(&issue());
    let out = render("[{{output_schema}}]", &ctx).unwrap();
    assert_eq!(out, "[]");
}

#[test]
fn list_field_rejects_subpath() {
    let ctx = PromptContext::for_issue(&issue());
    let err = render("{{children.first}}", &ctx).unwrap_err();
    assert_eq!(err, RenderError::UnknownPath("children.first".into()));
}

#[test]
fn scalar_field_rejects_subpath() {
    let ctx = PromptContext::for_issue(&issue());
    let err = render("{{title.upper}}", &ctx).unwrap_err();
    assert_eq!(err, RenderError::UnknownPath("title.upper".into()));
}

#[test]
fn template_without_placeholders_is_returned_unchanged() {
    let ctx = PromptContext::for_issue(&issue());
    let out = render("plain text\nno braces", &ctx).unwrap();
    assert_eq!(out, "plain text\nno braces");
}

#[test]
fn default_handoff_output_schema_lists_every_required_handoff_field() {
    let schema = default_handoff_output_schema();
    for field in [
        "summary",
        "changed_files",
        "tests_run",
        "verification_evidence",
        "known_risks",
        "blockers_created",
        "followups_created_or_proposed",
        "branch_or_workspace",
        "ready_for",
    ] {
        assert!(
            schema.contains(field),
            "default schema missing field: {field}"
        );
    }
}

#[test]
fn full_prompt_combines_every_section() {
    let role = RoleContext::from_kind("qa", RoleKind::QaGate);
    let ws = PromptWorkspace {
        path: "/tmp/wt/eng-7".into(),
        strategy: "git_worktree".into(),
        branch: Some("symphony/eng-7".into()),
        base_ref: Some("main".into()),
    };
    let ctx = PromptContext::for_issue(&issue())
        .with_role(role)
        .with_workspace(ws)
        .with_parent(PromptParent {
            identifier: "ENG-1".into(),
            title: "Broad parent".into(),
            url: None,
        })
        .with_children(vec![PromptChild {
            identifier: "ENG-8".into(),
            title: "Child A".into(),
            status: "Done".into(),
        }])
        .with_blockers(vec![PromptBlocker {
            id: None,
            blocking_id: None,
            reason: "vendor outage".into(),
            severity: BlockerSeverity::Critical,
        }])
        .with_acceptance_criteria(vec!["tests pass".into()])
        .with_output_schema("SCHEMA");

    let tpl = "\
Issue {{identifier}} ({{state}}): {{title}}
Role: {{role.name}} ({{role.kind}})
Authority: {{role.authority}}
Workspace: {{workspace.path}} on {{workspace.branch}} from {{workspace.base_ref}}
Parent: {{parent.identifier}} - {{parent.title}}
Children:
{{children}}
Blockers:
{{blockers}}
Acceptance:
{{acceptance_criteria}}
Output schema:
{{output_schema}}
";
    let out = render(tpl, &ctx).unwrap();
    assert!(out.contains("Issue ENG-7 (Todo): Add fizz to buzz"));
    assert!(out.contains("Role: qa (qa_gate)"));
    assert!(
        out.contains("Authority: can_file_blockers, can_file_followups, required_for_done")
    );
    assert!(out.contains("Workspace: /tmp/wt/eng-7 on symphony/eng-7 from main"));
    assert!(out.contains("Parent: ENG-1 - Broad parent"));
    assert!(out.contains("- ENG-8: Child A [Done]"));
    assert!(out.contains("- [critical] vendor outage"));
    assert!(out.contains("- tests pass"));
    assert!(out.contains("Output schema:\nSCHEMA"));
}
