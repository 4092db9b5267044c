//! Prompt context and rendering.
//!
//! [`PromptContext`] collects what an agent is told besides the issue body: its
//! role and authorities, its workspace, the parent and children of the work
//! item, open blockers, acceptance criteria and the output schema. [`render`]
//! fills the `{{path.to.value}}` placeholders of a template from it. It is
//! strict: an unknown path, an unclosed `{{` or an empty path is an error.
//!
//! Single values (empty when their source is missing): `identifier`, `title`,
//! `description`, `state`, `branch_name`, `url`, `role.name`, `role.kind`,
//! `role.authority`, `workspace.path`, `workspace.strategy`,
//! `workspace.branch`, `workspace.base_ref`, `parent.identifier`,
//! `parent.title`, `parent.url`, `output_schema`.
//!
//! Lists, one bullet per entry: `children`, `blockers`, `acceptance_criteria`.
use crate::blocker::{BlockerId, BlockerSeverity};
use crate::checks;
use crate::role::{RoleAuthority, RoleContext};
use crate::text;
use crate::tracker::Issue;
use crate::work_item::WorkItemId;
use vstd::prelude::*;

verus! {

/// Issue fields that the renderer needs.
#[derive(Debug, Clone, PartialEq, Eq, Default)]
pub struct PromptIssue {
    /// Tracker-facing identifier, such as `ENG-7`.
    pub identifier: String,
    /// Human-readable title.
    pub title: String,
    /// Free-form description, when the tracker has one.
    pub description: Option<String>,
    /// Raw tracker state, such as `Todo`.
    pub state: String,
    /// Suggested branch name, when the tracker provides one.
    pub branch_name: Option<String>,
    /// Tracker-facing URL, when known.
    pub url: Option<String>,
}

impl PromptIssue {
    /// Whether this is the projection of `issue`.
    pub open spec fn projects(self, issue: Issue) -> bool {
        &&& self.identifier == issue.identifier
        &&& self.title == issue.title
        &&& self.description == issue.description
        &&& self.state@ == issue.state@
        &&& self.branch_name == issue.branch_name
        &&& self.url == issue.url
    }

    /// The projection of an issue.
    pub fn from_issue(issue: &Issue) -> (r: Self)
        ensures
            r.projects(*issue),
    {
        PromptIssue {
            identifier: issue.identifier.clone(),
            title: issue.title.clone(),
            description: issue.description.clone(),
            state: issue.state.as_str().to_owned(),
            branch_name: issue.branch_name.clone(),
            url: issue.url.clone(),
        }
    }
}

/// Workspace claim summary surfaced to the agent.
#[derive(Debug, Clone, PartialEq, Eq, Default)]
pub struct PromptWorkspace {
    /// Absolute path to the workspace directory.
    pub path: String,
    /// Strategy in force, such as `git_worktree`.
    pub strategy: String,
    /// Branch the run is expected to be on, when applicable.
    pub branch: Option<String>,
    /// Base ref the strategy started from, such as `main`.
    pub base_ref: Option<String>,
}

/// Parent work-item summary for child runs.
#[derive(Debug, Clone, PartialEq, Eq, Default)]
pub struct PromptParent {
    /// Tracker identifier of the parent.
    pub identifier: String,
    /// Parent title.
    pub title: String,
    /// Parent URL, when known.
    pub url: Option<String>,
}

/// Child work-item summary for parent and integration-owner runs.
#[derive(Debug, Clone, PartialEq, Eq)]
pub struct PromptChild {
    /// Tracker identifier of the child.
    pub identifier: String,
    /// Child title.
    pub title: String,
    /// Tracker-facing status, free-form.
    pub status: String,
}

/// Open-blocker entry surfaced to the agent.
#[derive(Debug, Clone, PartialEq, Eq)]
pub struct PromptBlocker {
    /// Durable blocker id, when one has been minted.
    pub id: Option<BlockerId>,
    /// Work item that causes the block, when known.
    pub blocking_id: Option<WorkItemId>,
    /// Operator-facing reason.
    pub reason: String,
    /// Severity hint.
    pub severity: BlockerSeverity,
}

/// Bundle of context that the renderer needs.
#[derive(Debug, Clone, PartialEq, Eq, Default)]
pub struct PromptContext {
    /// Required issue fields.
    pub issue: PromptIssue,
    /// Role the agent is acting as for this run.
    pub role: Option<RoleContext>,
    /// Workspace claim provisioned for this run.
    pub workspace: Option<PromptWorkspace>,
    /// Parent work-item context, when this is a child run.
    pub parent: Option<PromptParent>,
    /// Child work-items, when this is a parent or integration run.
    pub children: Vec<PromptChild>,
    /// Open blockers relevant to this run.
    pub blockers: Vec<PromptBlocker>,
    /// Acceptance criteria that quality assurance will trace against.
    pub acceptance_criteria: Vec<String>,
    /// Structured output schema that the agent must conform to.
    pub output_schema: Option<String>,
}

impl PromptContext {
    /// Minimal context carrying only the issue.
    pub fn for_issue(issue: &Issue) -> (r: Self)
        ensures
            r.issue.projects(*issue),
            r.role is None,
            r.workspace is None,
            r.parent is None,
            r.children@.len() == 0,
            r.blockers@.len() == 0,
            r.acceptance_criteria@.len() == 0,
            r.output_schema is None,
    {
        PromptContext {
            issue: PromptIssue::from_issue(issue),
            role: None,
            workspace: None,
            parent: None,
            children: Vec::new(),
            blockers: Vec::new(),
            acceptance_criteria: Vec::new(),
            output_schema: None,
        }
    }

    /// Set the role context.
    pub fn with_role(self, role: RoleContext) -> (r: Self)
        ensures
            r == (PromptContext { role: Some(role), ..self }),
    {
        let mut r: Self = self;
        r.role = Some(role);
        r
    }

    /// Set the workspace claim summary.
    pub fn with_workspace(self, workspace: PromptWorkspace) -> (r: Self)
        ensures
            r == (PromptContext { workspace: Some(workspace), ..self }),
    {
        let mut r: Self = self;
        r.workspace = Some(workspace);
        r
    }

    /// Set the parent context.
    pub fn with_parent(self, parent: PromptParent) -> (r: Self)
        ensures
            r == (PromptContext { parent: Some(parent), ..self }),
    {
        let mut r: Self = self;
        r.parent = Some(parent);
        r
    }

    /// Replace the children list.
    pub fn with_children(self, children: Vec<PromptChild>) -> (r: Self)
        ensures
            r == (PromptContext { children, ..self }),
    {
        let mut r: Self = self;
        r.children = children;
        r
    }

    /// Replace the blockers list.
    pub fn with_blockers(self, blockers: Vec<PromptBlocker>) -> (r: Self)
        ensures
            r == (PromptContext { blockers, ..self }),
    {
        let mut r: Self = self;
        r.blockers = blockers;
        r
    }

    /// Replace the acceptance criteria list.
    pub fn with_acceptance_criteria(self, criteria: Vec<String>) -> (r: Self)
        ensures
            r == (PromptContext { acceptance_criteria: criteria, ..self }),
    {
        let mut r: Self = self;
        r.acceptance_criteria = criteria;
        r
    }

    /// Set the structured output schema.
    pub fn with_output_schema(self, schema: &str) -> (r: Self)
        ensures
            r == (PromptContext { output_schema: r.output_schema, ..self }),
            r.output_schema is Some,
            r.output_schema->0@ == schema@,
    {
        let mut r: Self = self;
        r.output_schema = Some(schema.to_owned());
        r
    }
}

/// Skeleton of the structured handoff that agents emit.
pub const HANDOFF_OUTPUT_SCHEMA: &'static str = r#"{
  "summary": "<one-line operator-facing summary>",
  "changed_files": ["path/to/file"],
  "tests_run": ["cargo test --workspace"],
  "verification_evidence": ["logs/run-N.txt"],
  "known_risks": ["risk description"],
  "blockers_created": [
    {"blocking_id": null, "reason": "...", "severity": "medium"}
  ],
  "followups_created_or_proposed": [
    {"title": "...", "summary": "...", "blocking": false, "propose_only": true}
  ],
  "branch_or_workspace": {
    "branch": "feat/foo",
    "workspace_path": "/abs/path",
    "base_ref": "main"
  },
  "ready_for": "integration | qa | human_review | blocked | done",
  "block_reason": null,
  "reporting_role": null,
  "verdict_request": null
}"#;

/// Canonical structured-handoff output schema.
pub fn default_handoff_output_schema() -> (s: String)
    ensures
        s@ == HANDOFF_OUTPUT_SCHEMA@,
{
    HANDOFF_OUTPUT_SCHEMA.to_owned()
}

/// Errors raised by [`render`] when a template cannot be expanded.
#[derive(Debug, Clone, PartialEq, Eq)]
pub enum RenderError {
    /// The template references a path that the renderer does not know.
    UnknownPath(String),
    /// The template has a `{{` that is never closed by `}}`.
    Malformed(String),
    /// A placeholder resolved to an empty path, or one with an empty segment.
    InvalidPath(String),
}

/// What a [`RenderError`] says.
pub enum RenderFailure {
    UnknownPath(Seq<char>),
    Malformed(Seq<char>),
    InvalidPath(Seq<char>),
}

impl View for RenderError {
    type V = RenderFailure;

    open spec fn view(&self) -> RenderFailure {
        match self {
            RenderError::UnknownPath(s) => RenderFailure::UnknownPath(s@),
            RenderError::Malformed(s) => RenderFailure::Malformed(s@),
            RenderError::InvalidPath(s) => RenderFailure::InvalidPath(s@),
        }
    }
}

/// The granted authorities, in declaration order.
pub open spec fn authority_flags(a: RoleAuthority) -> Seq<Seq<char>> {
    flag_if(a.can_decompose, "can_decompose"@) + flag_if(a.can_assign, "can_assign"@) + flag_if(
        a.can_request_qa,
        "can_request_qa"@,
    ) + flag_if(a.can_close_parent, "can_close_parent"@) + flag_if(
        a.can_file_blockers,
        "can_file_blockers"@,
    ) + flag_if(a.can_file_followups, "can_file_followups"@) + flag_if(
        a.required_for_done,
        "required_for_done"@,
    )
}

/// `name` alone when `granted`, nothing otherwise.
pub open spec fn flag_if(granted: bool, name: Seq<char>) -> Seq<Seq<char>> {
    if granted {
        seq![name]
    } else {
        Seq::empty()
    }
}

/// One bullet of the children list.
pub open spec fn child_line(c: PromptChild) -> Seq<char> {
    "- "@ + c.identifier@ + ": "@ + c.title@ + " ["@ + c.status@ + "]"@
}

/// One bullet of the blockers list.
pub open spec fn blocker_line(b: PromptBlocker) -> Seq<char> {
    "- ["@ + b.severity.text() + "] "@ + b.reason@
}

/// One bullet of the acceptance criteria list.
pub open spec fn criterion_line(item: String) -> Seq<char> {
    "- "@ + item@
}

/// The text that `path` stands for in `ctx`; `None` when it stands for nothing.
pub open spec fn resolve(ctx: PromptContext, path: Seq<char>) -> Option<Seq<char>> {
    if path == "identifier"@ {
        Some(ctx.issue.identifier@)
    } else if path == "title"@ {
        Some(ctx.issue.title@)
    } else if path == "description"@ {
        Some(text::text_or_empty(ctx.issue.description))
    } else if path == "state"@ {
        Some(ctx.issue.state@)
    } else if path == "branch_name"@ {
        Some(text::text_or_empty(ctx.issue.branch_name))
    } else if path == "url"@ {
        Some(text::text_or_empty(ctx.issue.url))
    } else if path == "output_schema"@ {
        Some(text::text_or_empty(ctx.output_schema))
    } else if path == "role.name"@ {
        Some(
            match ctx.role {
                Some(r) => r.name@,
                None => Seq::empty(),
            },
        )
    } else if path == "role.kind"@ {
        Some(
            match ctx.role {
                Some(r) => r.kind.text(),
                None => Seq::empty(),
            },
        )
    } else if path == "role.authority"@ {
        Some(
            match ctx.role {
                Some(r) => text::join(authority_flags(r.authority), ", "@),
                None => Seq::empty(),
            },
        )
    } else if path == "workspace.path"@ {
        Some(
            match ctx.workspace {
                Some(w) => w.path@,
                None => Seq::empty(),
            },
        )
    } else if path == "workspace.strategy"@ {
        Some(
            match ctx.workspace {
                Some(w) => w.strategy@,
                None => Seq::empty(),
            },
        )
    } else if path == "workspace.branch"@ {
        Some(
            match ctx.workspace {
                Some(w) => text::text_or_empty(w.branch),
                None => Seq::empty(),
            },
        )
    } else if path == "workspace.base_ref"@ {
        Some(
            match ctx.workspace {
                Some(w) => text::text_or_empty(w.base_ref),
                None => Seq::empty(),
            },
        )
    } else if path == "parent.identifier"@ {
        Some(
            match ctx.parent {
                Some(p) => p.identifier@,
                None => Seq::empty(),
            },
        )
    } else if path == "parent.title"@ {
        Some(
            match ctx.parent {
                Some(p) => p.title@,
                None => Seq::empty(),
            },
        )
    } else if path == "parent.url"@ {
        Some(
            match ctx.parent {
                Some(p) => text::text_or_empty(p.url),
                None => Seq::empty(),
            },
        )
    } else if path == "children"@ {
        Some(text::join(ctx.children@.map_values(|c: PromptChild| child_line(c)), "\n"@))
    } else if path == "blockers"@ {
        Some(text::join(ctx.blockers@.map_values(|b: PromptBlocker| blocker_line(b)), "\n"@))
    } else if path == "acceptance_criteria"@ {
        Some(
            text::join(
                ctx.acceptance_criteria@.map_values(|item: String| criterion_line(item)),
                "\n"@,
            ),
        )
    } else {
        None
    }
}

/// Whether one of the dot-separated segments of `path` is blank.
pub open spec fn has_blank_segment(path: Seq<char>) -> bool {
    exists|i: int|
        0 <= i < text::split(path, '.').len() && text::is_blank(
            #[trigger] text::split(path, '.')[i],
        )
}

/// What a placeholder with `raw` between its braces expands to.
pub open spec fn expand(ctx: PromptContext, raw: Seq<char>) -> Result<Seq<char>, RenderFailure> {
    let path = text::trim(raw);
    if path.len() == 0 {
        Err(RenderFailure::InvalidPath(raw))
    } else if has_blank_segment(path) {
        Err(RenderFailure::InvalidPath(path))
    } else {
        match resolve(ctx, path) {
            Some(value) => Ok(value),
            None => Err(RenderFailure::UnknownPath(path)),
        }
    }
}

/// `before` in front of a rendered text; a failure stays as it is.
pub open spec fn after_text(
    before: Seq<char>,
    rest: Result<Seq<char>, RenderFailure>,
) -> Result<Seq<char>, RenderFailure> {
    match rest {
        Ok(t) => Ok(before + t),
        Err(e) => Err(e),
    }
}

/// What a template renders to: text outside placeholders stands for itself, and
/// each placeholder, from left to right, for what it expands to.
pub open spec fn rendered(ctx: PromptContext, template: Seq<char>) -> Result<
    Seq<char>,
    RenderFailure,
>
    decreases template.len(),
{
    match text::find_pair(template, '{') {
        None => Ok(template),
        Some(start) => {
            let after_open = template.skip(start + 2);
            match text::find_pair(after_open, '}') {
                None => Err(RenderFailure::Malformed(template.skip(start))),
                Some(end) => {
                    match expand(ctx, after_open.take(end)) {
                        Err(e) => Err(e),
                        Ok(value) => {
                            proof {
                                text::lemma_find_pair(template, '{');
                                text::lemma_find_pair(after_open, '}');
                            }
                            after_text(
                                template.take(start) + value,
                                rendered(ctx, after_open.skip(end + 2)),
                            )
                        },
                    }
                },
            }
        },
    }
}

/// One step of [`rendered`]: the first placeholder of a template, by where it opens and
/// how long it is.
proof fn lemma_rendered_at(ctx: PromptContext, template: Seq<char>, start: int, len: int)
    requires
        text::find_pair(template, '{') == Some(start),
        text::find_pair(template.skip(start + 2), '}') == Some(len),
    ensures
        rendered(ctx, template) == (match expand(ctx, template.skip(start + 2).take(len)) {
            Ok(value) => after_text(
                template.take(start) + value,
                rendered(ctx, template.skip(start + 2).skip(len + 2)),
            ),
            Err(e) => Err(e),
        }),
{
}

proof fn lemma_after_text_twice(
    a: Seq<char>,
    b: Seq<char>,
    rest: Result<Seq<char>, RenderFailure>,
)
    ensures
        after_text(a, after_text(b, rest)) == after_text(a + b, rest),
{
    match rest {
        Ok(t) => assert(a + (b + t) =~= (a + b) + t),
        Err(_) => {},
    }
}

fn push_flag(flags: &mut Vec<String>, granted: bool, name: &str)
    ensures
        text::texts(final(flags)@) == text::texts(old(flags)@) + flag_if(granted, name@),
{
    if granted {
        let flag: String = name.to_owned();
        flags.push(flag);
        assert(text::texts(flags@) =~= text::texts(old(flags)@).push(flag@));
    }
    assert(text::texts(flags@) =~= text::texts(old(flags)@) + flag_if(granted, name@));
}

fn render_authority(a: &RoleAuthority) -> (out: String)
    ensures
        out@ == text::join(authority_flags(*a), ", "@),
{
    let mut flags: Vec<String> = Vec::new();
    assert(text::texts(flags@) =~= Seq::<Seq<char>>::empty());
    push_flag(&mut flags, a.can_decompose, "can_decompose");
    push_flag(&mut flags, a.can_assign, "can_assign");
    push_flag(&mut flags, a.can_request_qa, "can_request_qa");
    push_flag(&mut flags, a.can_close_parent, "can_close_parent");
    push_flag(&mut flags, a.can_file_blockers, "can_file_blockers");
    push_flag(&mut flags, a.can_file_followups, "can_file_followups");
    push_flag(&mut flags, a.required_for_done, "required_for_done");
    assert(text::texts(flags@) =~= authority_flags(*a));
    text::join_texts(&flags, ", ")
}

fn render_children(children: &Vec<PromptChild>) -> (out: String)
    ensures
        out@ == text::join(children@.map_values(|c: PromptChild| child_line(c)), "\n"@),
{
    let mut lines: Vec<String> = Vec::new();
    for i in 0..children.len()
        invariant
            lines@.len() == i,
            forall|j: int| 0 <= j < i ==> (#[trigger] lines@[j])@ == child_line(children@[j]),
    {
        let child: &PromptChild = &children[i];
        let mut line: String = "- ".to_owned();
        line.append(child.identifier.as_str());
        line.append(": ");
        line.append(child.title.as_str());
        line.append(" [");
        line.append(child.status.as_str());
        line.append("]");
        lines.push(line);
    }
    assert(text::texts(lines@) =~= children@.map_values(|c: PromptChild| child_line(c)));
    text::join_texts(&lines, "\n")
}

fn render_blockers(blockers: &Vec<PromptBlocker>) -> (out: String)
    ensures
        out@ == text::join(blockers@.map_values(|b: PromptBlocker| blocker_line(b)), "\n"@),
{
    let mut lines: Vec<String> = Vec::new();
    for i in 0..blockers.len()
        invariant
            lines@.len() == i,
            forall|j: int| 0 <= j < i ==> (#[trigger] lines@[j])@ == blocker_line(blockers@[j]),
    {
        let blocker: &PromptBlocker = &blockers[i];
        let mut line: String = "- [".to_owned();
        line.append(blocker.severity.as_str());
        line.append("] ");
        line.append(blocker.reason.as_str());
        lines.push(line);
    }
    assert(text::texts(lines@) =~= blockers@.map_values(|b: PromptBlocker| blocker_line(b)));
    text::join_texts(&lines, "\n")
}

fn render_acceptance(items: &Vec<String>) -> (out: String)
    ensures
        out@ == text::join(items@.map_values(|item: String| criterion_line(item)), "\n"@),
{
    let mut lines: Vec<String> = Vec::new();
    for i in 0..items.len()
        invariant
            lines@.len() == i,
            forall|j: int| 0 <= j < i ==> (#[trigger] lines@[j])@ == criterion_line(items@[j]),
    {
        let mut line: String = "- ".to_owned();
        line.append(items[i].as_str());
        lines.push(line);
    }
    assert(text::texts(lines@) =~= items@.map_values(|item: String| criterion_line(item)));
    text::join_texts(&lines, "\n")
}

fn resolve_issue(ctx: &PromptContext, path: &str) -> (value: Option<String>)
    ensures
        match value {
            Some(v) => resolve(*ctx, path@) == Some(v@),
            None => {
                &&& path@ != "identifier"@
                &&& path@ != "title"@
                &&& path@ != "description"@
                &&& path@ != "state"@
                &&& path@ != "branch_name"@
                &&& path@ != "url"@
                &&& path@ != "output_schema"@
            },
        },
{
    if text::same_text(path, "identifier") {
        Some(ctx.issue.identifier.clone())
    } else if text::same_text(path, "title") {
        Some(ctx.issue.title.clone())
    } else if text::same_text(path, "description") {
        Some(text::copy_or_empty(&ctx.issue.description))
    } else if text::same_text(path, "state") {
        Some(ctx.issue.state.clone())
    } else if text::same_text(path, "branch_name") {
        Some(text::copy_or_empty(&ctx.issue.branch_name))
    } else if text::same_text(path, "url") {
        Some(text::copy_or_empty(&ctx.issue.url))
    } else if text::same_text(path, "output_schema") {
        Some(text::copy_or_empty(&ctx.output_schema))
    } else {
        None
    }
}

/// The text that `path` stands for.
pub fn resolve_path(ctx: &PromptContext, path: &str) -> (value: Result<String, RenderError>)
    ensures
        match resolve(*ctx, path@) {
            Some(t) => value is Ok && value->Ok_0@ == t,
            None => value is Err && value->Err_0@ == RenderFailure::UnknownPath(path@),
        },
{
    match resolve_issue(ctx, path) {
        Some(value) => return Ok(value),
        None => {},
    }
    let value: String = if text::same_text(path, "role.name") {
        match &ctx.role {
            Some(r) => r.name.as_str().to_owned(),
            None => String::new(),
        }
    } else if text::same_text(path, "role.kind") {
        match &ctx.role {
            Some(r) => r.kind.as_str().to_owned(),
            None => String::new(),
        }
    } else if text::same_text(path, "role.authority") {
        match &ctx.role {
            Some(r) => render_authority(&r.authority),
            None => String::new(),
        }
    } else if text::same_text(path, "workspace.path") {
        match &ctx.workspace {
            Some(w) => w.path.clone(),
            None => String::new(),
        }
    } else if text::same_text(path, "workspace.strategy") {
        match &ctx.workspace {
            Some(w) => w.strategy.clone(),
            None => String::new(),
        }
    } else if text::same_text(path, "workspace.branch") {
        match &ctx.workspace {
            Some(w) => text::copy_or_empty(&w.branch),
            None => String::new(),
        }
    } else if text::same_text(path, "workspace.base_ref") {
        match &ctx.workspace {
            Some(w) => text::copy_or_empty(&w.base_ref),
            None => String::new(),
        }
    } else if text::same_text(path, "parent.identifier") {
        match &ctx.parent {
            Some(p) => p.identifier.clone(),
            None => String::new(),
        }
    } else if text::same_text(path, "parent.title") {
        match &ctx.parent {
            Some(p) => p.title.clone(),
            None => String::new(),
        }
    } else if text::same_text(path, "parent.url") {
        match &ctx.parent {
            Some(p) => text::copy_or_empty(&p.url),
            None => String::new(),
        }
    } else if text::same_text(path, "children") {
        render_children(&ctx.children)
    } else if text::same_text(path, "blockers") {
        render_blockers(&ctx.blockers)
    } else if text::same_text(path, "acceptance_criteria") {
        render_acceptance(&ctx.acceptance_criteria)
    } else {
        return Err(RenderError::UnknownPath(path.to_owned()));
    };
    Ok(value)
}

/// Expands what stands between the braces of one placeholder.
fn expand_placeholder(ctx: &PromptContext, raw: &str) -> (value: Result<String, RenderError>)
    ensures
        match expand(*ctx, raw@) {
            Ok(t) => value is Ok && value->Ok_0@ == t,
            Err(e) => value is Err && value->Err_0@ == e,
        },
{
    let chars: Vec<char> = text::chars_of(raw);
    assert(raw@.subrange(0, raw@.len() as int) =~= raw@);
    let (a, b): (usize, usize) = text::trim_bounds(&chars, 0, chars.len());
    if a == b {
        return Err(RenderError::InvalidPath(raw.to_owned()));
    }
    let path: &str = raw.substring_char(a, b);
    let segments: Vec<String> = text::split_text(path, '.');
    assert(checks::has_blank(segments@) == has_blank_segment(path@)) by {
        let split = text::split(path@, '.');
        assert(text::texts(segments@) == split);
        assert(forall|i: int|
            0 <= i < segments@.len() ==> split[i] == (#[trigger] segments@[i])@);
        if has_blank_segment(path@) {
            let i = choose|i: int| 0 <= i < split.len() && text::is_blank(#[trigger] split[i]);
            assert(text::is_blank(segments@[i]@));
        }
    }
    if checks::any_blank(&segments) {
        return Err(RenderError::InvalidPath(path.to_owned()));
    }
    resolve_path(ctx, path)
}

/// Substitutes the `{{path.to.value}}` placeholders of `template` from `ctx`.
pub fn render(template: &str, ctx: &PromptContext) -> (r: Result<String, RenderError>)
    ensures
        match rendered(*ctx, template@) {
            Ok(t) => r is Ok && r->Ok_0@ == t,
            Err(e) => r is Err && r->Err_0@ == e,
        },
{
    let chars: Vec<char> = text::chars_of(template);
    let n: usize = chars.len();
    let mut out: String = String::new();
    let mut pos: usize = 0;
    assert(template@.skip(0) =~= template@);
    assert(after_text(out@, rendered(*ctx, template@)) == rendered(*ctx, template@)) by {
        match rendered(*ctx, template@) {
            Ok(t) => assert(out@ + t =~= t),
            Err(_) => {},
        }
    }
    loop
        invariant
            chars@ == template@,
            n == template@.len(),
            pos <= n,
            rendered(*ctx, template@) == after_text(out@, rendered(*ctx, template@.skip(pos as int))),
        ensures
            pos <= n,
            rendered(*ctx, template@) == Ok::<Seq<char>, RenderFailure>(
                out@ + template@.skip(pos as int),
            ),
        decreases n - pos,
    {
        let ghost rest = template@.skip(pos as int);
        let start: usize = match text::find_pair_from(&chars, pos, '{') {
            Some(i) => i,
            None => break,
        };
        let ghost after_open = rest.skip(start - pos + 2);
        assert(after_open =~= template@.skip(start + 2));
        let end: usize = match text::find_pair_from(&chars, start + 2, '}') {
            Some(i) => i,
            None => {
                assert(rest.skip(start - pos) =~= template@.subrange(start as int, n as int));
                return Err(RenderError::Malformed(template.substring_char(start, n).to_owned()));
            },
        };
        let raw: &str = template.substring_char(start + 2, end);
        assert(raw@ =~= after_open.take(end - start - 2));
        let value: String = match expand_placeholder(ctx, raw) {
            Ok(value) => value,
            Err(e) => return Err(e),
        };
        let ghost before = out@;
        out.append(template.substring_char(pos, start));
        out.append(value.as_str());
        assert(template@.subrange(pos as int, start as int) =~= rest.take(start - pos));
        assert(after_open.skip(end - start) =~= template@.skip(end + 2));
        proof {
            let added = rest.take(start - pos) + value@;
            lemma_after_text_twice(before, added, rendered(*ctx, template@.skip(end + 2)));
            assert(out@ =~= before + added);
        }
        pos = end + 2;
    }
    out.append(template.substring_char(pos, n));
    assert(template@.subrange(pos as int, n as int) =~= template@.skip(pos as int));
    Ok(out)
}

/// How the standard library quotes a text for diagnostics.
pub uninterp spec fn quoted(s: Seq<char>) -> Seq<char>;

/// Quotes a text with the `Debug` formatting of `str` from the standard library,
/// which puts it in double quotes and escapes what needs escaping. The result is
/// named, not spelled out: which characters are escaped depends on Unicode tables.
#[verifier::external_body]
fn quote(s: &str) -> (r: String)
    ensures
        r@ == quoted(s@),
{
    format!("{:?}", s)
}

/// The message for an invalid path, given the quoted path.
pub fn invalid_path_message(quoted_path: &str) -> (s: String)
    ensures
        s@ == "invalid prompt placeholder path: "@ + quoted_path@,
{
    let mut out: String = "invalid prompt placeholder path: ".to_owned();
    out.append(quoted_path);
    out
}

impl RenderError {
    /// Operator-facing message.
    pub fn to_string(&self) -> (s: String)
        ensures
            match self@ {
                RenderFailure::UnknownPath(p) => s@ == "unknown prompt placeholder: {{"@ + p
                    + "}}"@,
                RenderFailure::Malformed(t) => s@ == "unclosed prompt placeholder near: "@ + t,
                RenderFailure::InvalidPath(p) => s@ == "invalid prompt placeholder path: "@
                    + quoted(p),
            },
    {
        match self {
            RenderError::UnknownPath(p) => {
                let mut out: String = "unknown prompt placeholder: {{".to_owned();
                out.append(p.as_str());
                out.append("}}");
                out
            },
            RenderError::Malformed(t) => {
                let mut out: String = "unclosed prompt placeholder near: ".to_owned();
                out.append(t.as_str());
                out
            },
            RenderError::InvalidPath(p) => {
                let q: String = quote(p.as_str());
                invalid_path_message(q.as_str())
            },
        }
    }
}

/// The names of the authorities, each with its length, so that no two are the same.
proof fn lemma_flag_names()
    ensures
        "can_decompose"@.len() == 13,
        "can_assign"@.len() == 10,
        "can_request_qa"@.len() == 14,
        "can_close_parent"@.len() == 16,
        "can_file_blockers"@.len() == 17,
        "can_file_followups"@.len() == 18,
        "required_for_done"@.len() == 17,
        "can_file_blockers"@ != "required_for_done"@,
{
    reveal_strlit("can_decompose");
    reveal_strlit("can_assign");
    reveal_strlit("can_request_qa");
    reveal_strlit("can_close_parent");
    reveal_strlit("can_file_blockers");
    reveal_strlit("can_file_followups");
    reveal_strlit("required_for_done");
    assert("can_file_blockers"@[0] != "required_for_done"@[0]);
}

/// The listed authorities are exactly the granted ones, whatever the others are: the name
/// of each is listed if and only if the role has it, once, and nothing else is listed.
pub proof fn listed_authorities_are_the_granted_ones(a: RoleAuthority)
    ensures
        authority_flags(a).contains("can_decompose"@) <==> a.can_decompose,
        authority_flags(a).contains("can_assign"@) <==> a.can_assign,
        authority_flags(a).contains("can_request_qa"@) <==> a.can_request_qa,
        authority_flags(a).contains("can_close_parent"@) <==> a.can_close_parent,
        authority_flags(a).contains("can_file_blockers"@) <==> a.can_file_blockers,
        authority_flags(a).contains("can_file_followups"@) <==> a.can_file_followups,
        authority_flags(a).contains("required_for_done"@) <==> a.required_for_done,
        authority_flags(a).len() == (if a.can_decompose { 1int } else { 0int })
            + (if a.can_assign { 1int } else { 0int })
            + (if a.can_request_qa { 1int } else { 0int })
            + (if a.can_close_parent { 1int } else { 0int })
            + (if a.can_file_blockers { 1int } else { 0int })
            + (if a.can_file_followups { 1int } else { 0int })
            + (if a.required_for_done { 1int } else { 0int }),
        forall|n: Seq<char>| #[trigger]
            authority_flags(a).contains(n) ==> n == "can_decompose"@ || n == "can_assign"@
                || n == "can_request_qa"@ || n == "can_close_parent"@ || n == "can_file_blockers"@
                || n == "can_file_followups"@ || n == "required_for_done"@,
{
    lemma_flag_names();
    lemma_listed(a, "can_decompose"@);
    lemma_listed(a, "can_assign"@);
    lemma_listed(a, "can_request_qa"@);
    lemma_listed(a, "can_close_parent"@);
    lemma_listed(a, "can_file_blockers"@);
    lemma_listed(a, "can_file_followups"@);
    lemma_listed(a, "required_for_done"@);
    assert forall|n: Seq<char>| #[trigger] authority_flags(a).contains(n) implies n
        == "can_decompose"@ || n == "can_assign"@ || n == "can_request_qa"@
        || n == "can_close_parent"@ || n == "can_file_blockers"@ || n == "can_file_followups"@
        || n == "required_for_done"@ by {
        lemma_listed(a, n);
    }
}

proof fn lemma_listed(a: RoleAuthority, n: Seq<char>)
    ensures
        authority_flags(a).contains(n) <==> (a.can_decompose && n == "can_decompose"@)
            || (a.can_assign && n == "can_assign"@) || (a.can_request_qa && n == "can_request_qa"@)
            || (a.can_close_parent && n == "can_close_parent"@) || (a.can_file_blockers
            && n == "can_file_blockers"@) || (a.can_file_followups && n == "can_file_followups"@)
            || (a.required_for_done && n == "required_for_done"@),
{
    let part1 = flag_if(a.can_decompose, "can_decompose"@);
    lemma_flag_member(Seq::empty(), a.can_decompose, "can_decompose"@, n);
    assert(Seq::<Seq<char>>::empty() + part1 =~= part1);
    let part2 = part1 + flag_if(a.can_assign, "can_assign"@);
    lemma_flag_member(part1, a.can_assign, "can_assign"@, n);
    let part3 = part2 + flag_if(a.can_request_qa, "can_request_qa"@);
    lemma_flag_member(part2, a.can_request_qa, "can_request_qa"@, n);
    let part4 = part3 + flag_if(a.can_close_parent, "can_close_parent"@);
    lemma_flag_member(part3, a.can_close_parent, "can_close_parent"@, n);
    let part5 = part4 + flag_if(a.can_file_blockers, "can_file_blockers"@);
    lemma_flag_member(part4, a.can_file_blockers, "can_file_blockers"@, n);
    let part6 = part5 + flag_if(a.can_file_followups, "can_file_followups"@);
    lemma_flag_member(part5, a.can_file_followups, "can_file_followups"@, n);
    let part7 = part6 + flag_if(a.required_for_done, "required_for_done"@);
    lemma_flag_member(part6, a.required_for_done, "required_for_done"@, n);
}

proof fn lemma_flag_member(
    before: Seq<Seq<char>>,
    granted: bool,
    name: Seq<char>,
    n: Seq<char>,
)
    ensures
        (before + flag_if(granted, name)).contains(n) <==> before.contains(n) || (granted && n
            == name),
{
    let after = before + flag_if(granted, name);
    if after.contains(n) {
        let i = choose|i: int| 0 <= i < after.len() && after[i] == n;
        if i < before.len() {
            assert(before[i] == n);
        }
    }
    if before.contains(n) {
        let i = choose|i: int| 0 <= i < before.len() && before[i] == n;
        assert(after[i] == n);
    }
    if granted && n == name {
        assert(after[before.len() as int] == n);
    }
}

/// The authorities are listed in declaration order: taking the last one away leaves the
/// list of the others, in front of it.
pub proof fn authorities_are_listed_in_order(a: RoleAuthority)
    ensures
        a.required_for_done ==> authority_flags(a) == authority_flags(
            RoleAuthority { required_for_done: false, ..a },
        ).push("required_for_done"@),
        !a.required_for_done && a.can_file_followups ==> authority_flags(a) == authority_flags(
            RoleAuthority { can_file_followups: false, ..a },
        ).push("can_file_followups"@),
        !a.can_file_followups && !a.required_for_done && a.can_file_blockers
            ==> authority_flags(a) == authority_flags(
            RoleAuthority { can_file_blockers: false, ..a },
        ).push("can_file_blockers"@),
        !a.can_file_blockers && !a.can_file_followups && !a.required_for_done && a.can_close_parent
            ==> authority_flags(a) == authority_flags(
            RoleAuthority { can_close_parent: false, ..a },
        ).push("can_close_parent"@),
        !a.can_close_parent && !a.can_file_blockers && !a.can_file_followups
            && !a.required_for_done && a.can_request_qa ==> authority_flags(a) == authority_flags(
            RoleAuthority { can_request_qa: false, ..a },
        ).push("can_request_qa"@),
        !a.can_request_qa && !a.can_close_parent && !a.can_file_blockers && !a.can_file_followups
            && !a.required_for_done && a.can_assign ==> authority_flags(a) == authority_flags(
            RoleAuthority { can_assign: false, ..a },
        ).push("can_assign"@),
        !a.can_assign && !a.can_request_qa && !a.can_close_parent && !a.can_file_blockers
            && !a.can_file_followups && !a.required_for_done && a.can_decompose
            ==> authority_flags(a) == authority_flags(
            RoleAuthority { can_decompose: false, ..a },
        ).push("can_decompose"@),
{
    if a.required_for_done {
        assert(authority_flags(a) =~= authority_flags(RoleAuthority { required_for_done: false, ..a }).push(
            "required_for_done"@,
        ));
    }
    if !a.required_for_done && a.can_file_followups {
        assert(authority_flags(a) =~= authority_flags(RoleAuthority { can_file_followups: false, ..a }).push(
            "can_file_followups"@,
        ));
    }
    if !a.can_file_followups && !a.required_for_done && a.can_file_blockers {
        assert(authority_flags(a) =~= authority_flags(RoleAuthority { can_file_blockers: false, ..a }).push(
            "can_file_blockers"@,
        ));
    }
    if !a.can_file_blockers && !a.can_file_followups && !a.required_for_done && a.can_close_parent {
        assert(authority_flags(a) =~= authority_flags(RoleAuthority { can_close_parent: false, ..a }).push(
            "can_close_parent"@,
        ));
    }
    if !a.can_close_parent && !a.can_file_blockers && !a.can_file_followups && !a.required_for_done
        && a.can_request_qa {
        assert(authority_flags(a) =~= authority_flags(RoleAuthority { can_request_qa: false, ..a }).push(
            "can_request_qa"@,
        ));
    }
    if !a.can_request_qa && !a.can_close_parent && !a.can_file_blockers && !a.can_file_followups
        && !a.required_for_done && a.can_assign {
        assert(authority_flags(a) =~= authority_flags(RoleAuthority { can_assign: false, ..a }).push(
            "can_assign"@,
        ));
    }
    if !a.can_assign && !a.can_request_qa && !a.can_close_parent && !a.can_file_blockers
        && !a.can_file_followups && !a.required_for_done && a.can_decompose {
        assert(authority_flags(a) =~= authority_flags(RoleAuthority { can_decompose: false, ..a }).push(
            "can_decompose"@,
        ));
    }
}

/// The known paths, told apart by their lengths and first letters.
proof fn lemma_path_names()
    ensures
        "identifier"@.len() == 10,
        "title"@.len() == 5,
        "description"@.len() == 11,
        "state"@.len() == 5,
        "branch_name"@.len() == 11,
        "url"@.len() == 3,
        "output_schema"@.len() == 13,
        "role.name"@.len() == 9,
        "role.kind"@.len() == 9,
        "role.authority"@.len() == 14,
        "workspace.path"@.len() == 14,
        "workspace.strategy"@.len() == 18,
        "workspace.branch"@.len() == 16,
        "workspace.base_ref"@.len() == 18,
        "parent.identifier"@.len() == 17,
        "parent.title"@.len() == 12,
        "parent.url"@.len() == 10,
        "children"@.len() == 8,
        "blockers"@.len() == 8,
        "acceptance_criteria"@.len() == 19,
        "identifier"@ != "parent.url"@,
        "title"@ != "state"@,
        "description"@ != "branch_name"@,
        "role.name"@ != "role.kind"@,
        "role.authority"@ != "workspace.path"@,
        "workspace.strategy"@ != "workspace.base_ref"@,
        "children"@ != "blockers"@,
{
    reveal_strlit("identifier");
    reveal_strlit("title");
    reveal_strlit("description");
    reveal_strlit("state");
    reveal_strlit("branch_name");
    reveal_strlit("url");
    reveal_strlit("output_schema");
    reveal_strlit("role.name");
    reveal_strlit("role.kind");
    reveal_strlit("role.authority");
    reveal_strlit("workspace.path");
    reveal_strlit("workspace.strategy");
    reveal_strlit("workspace.branch");
    reveal_strlit("workspace.base_ref");
    reveal_strlit("parent.identifier");
    reveal_strlit("parent.title");
    reveal_strlit("parent.url");
    reveal_strlit("children");
    reveal_strlit("blockers");
    reveal_strlit("acceptance_criteria");
    assert("identifier"@[0] != "parent.url"@[0]);
    assert("title"@[0] != "state"@[0]);
    assert("description"@[0] != "branch_name"@[0]);
    assert("role.name"@[5] != "role.kind"@[5]);
    assert("role.authority"@[0] != "workspace.path"@[0]);
    assert("workspace.strategy"@[10] != "workspace.base_ref"@[10]);
    assert("children"@[0] != "blockers"@[0]);
}

/// A path that names a field of the issue stands for that field of the context; an
/// optional one stands for the empty text where it is missing.
pub proof fn issue_paths_stand_for_their_fields(ctx: PromptContext)
    ensures
        resolve(ctx, "identifier"@) == Some(ctx.issue.identifier@),
        resolve(ctx, "title"@) == Some(ctx.issue.title@),
        resolve(ctx, "state"@) == Some(ctx.issue.state@),
        ctx.issue.description matches Some(t) ==> resolve(ctx, "description"@) == Some(t@),
        ctx.issue.description is None
            ==> resolve(ctx, "description"@) == Some(Seq::<char>::empty()),
        ctx.issue.branch_name matches Some(t) ==> resolve(ctx, "branch_name"@) == Some(t@),
        ctx.issue.branch_name is None
            ==> resolve(ctx, "branch_name"@) == Some(Seq::<char>::empty()),
        ctx.issue.url matches Some(t) ==> resolve(ctx, "url"@) == Some(t@),
        ctx.issue.url is None ==> resolve(ctx, "url"@) == Some(Seq::<char>::empty()),
        ctx.output_schema matches Some(t) ==> resolve(ctx, "output_schema"@) == Some(t@),
        ctx.output_schema is None ==> resolve(ctx, "output_schema"@) == Some(Seq::<char>::empty()),
{
    lemma_path_names();
}

/// A path that names a field of the role, the workspace or the parent stands for that
/// field where the context has one.
pub proof fn context_paths_stand_for_their_fields(ctx: PromptContext)
    ensures
        ctx.role matches Some(role) ==> {
            &&& resolve(ctx, "role.name"@) == Some(role.name@)
            &&& resolve(ctx, "role.kind"@) == Some(role.kind.text())
            &&& resolve(ctx, "role.authority"@) == Some(
                text::join(authority_flags(role.authority), seq![',', ' ']),
            )
        },
        ctx.workspace matches Some(w) ==> {
            &&& resolve(ctx, "workspace.path"@) == Some(w.path@)
            &&& resolve(ctx, "workspace.strategy"@) == Some(w.strategy@)
            &&& w.branch matches Some(t) ==> resolve(ctx, "workspace.branch"@) == Some(t@)
            &&& w.base_ref matches Some(t) ==> resolve(ctx, "workspace.base_ref"@) == Some(t@)
        },
        ctx.parent matches Some(p) ==> {
            &&& resolve(ctx, "parent.identifier"@) == Some(p.identifier@)
            &&& resolve(ctx, "parent.title"@) == Some(p.title@)
            &&& p.url matches Some(t) ==> resolve(ctx, "parent.url"@) == Some(t@)
        },
{
    lemma_path_names();
    reveal_strlit(", ");
    assert(", "@ =~= seq![',', ' ']);
}

/// A path into a part that the context lacks stands for the empty text.
pub proof fn paths_into_missing_parts_are_empty(ctx: PromptContext)
    ensures
        ctx.role is None ==> {
            &&& resolve(ctx, "role.name"@) == Some(Seq::<char>::empty())
            &&& resolve(ctx, "role.kind"@) == Some(Seq::<char>::empty())
            &&& resolve(ctx, "role.authority"@) == Some(Seq::<char>::empty())
        },
        ctx.workspace is None ==> {
            &&& resolve(ctx, "workspace.path"@) == Some(Seq::<char>::empty())
            &&& resolve(ctx, "workspace.strategy"@) == Some(Seq::<char>::empty())
            &&& resolve(ctx, "workspace.branch"@) == Some(Seq::<char>::empty())
            &&& resolve(ctx, "workspace.base_ref"@) == Some(Seq::<char>::empty())
        },
        ctx.parent is None ==> {
            &&& resolve(ctx, "parent.identifier"@) == Some(Seq::<char>::empty())
            &&& resolve(ctx, "parent.title"@) == Some(Seq::<char>::empty())
            &&& resolve(ctx, "parent.url"@) == Some(Seq::<char>::empty())
        },
        ctx.workspace matches Some(w) ==> w.branch is None ==> resolve(ctx, "workspace.branch"@)
            == Some(Seq::<char>::empty()),
        ctx.workspace matches Some(w) ==> w.base_ref is None ==> resolve(
            ctx,
            "workspace.base_ref"@,
        ) == Some(Seq::<char>::empty()),
        ctx.parent matches Some(p) ==> p.url is None
            ==> resolve(ctx, "parent.url"@) == Some(Seq::<char>::empty()),
{
    lemma_path_names();
}

/// Only the documented paths stand for anything, in every context.
pub proof fn only_known_paths_resolve(ctx: PromptContext, path: Seq<char>)
    ensures
        resolve(ctx, path) is Some <==> (
            path == "identifier"@
            || path == "title"@
            || path == "description"@
            || path == "state"@
            || path == "branch_name"@
            || path == "url"@
            || path == "output_schema"@
            || path == "role.name"@
            || path == "role.kind"@
            || path == "role.authority"@
            || path == "workspace.path"@
            || path == "workspace.strategy"@
            || path == "workspace.branch"@
            || path == "workspace.base_ref"@
            || path == "parent.identifier"@
            || path == "parent.title"@
            || path == "parent.url"@
            || path == "children"@
            || path == "blockers"@
            || path == "acceptance_criteria"@),
{
}

/// The list of children is empty without entries, and has one bullet per entry, in order, each on a
/// line of its own.
pub proof fn children_render_as_bullets(
    ctx: PromptContext,
    longer: PromptContext,
    last: PromptChild,
)
    requires
        longer.children@ == ctx.children@.push(last),
    ensures
        ctx.children@.len() == 0 ==> resolve(ctx, "children"@) == Some(Seq::<char>::empty()),
        ({
            let bullet = seq!['-', ' '] + last.identifier@ + seq![':', ' '] + last.title@
                + seq![' ', '[']
                + last.status@ + seq![']'];
            resolve(longer, "children"@) == Some(
                if ctx.children@.len() == 0 {
                    bullet
                } else {
                    resolve(ctx, "children"@)->0 + seq!['\n'] + bullet
                },
            )
        }),
{
    lemma_path_names();
    reveal_strlit("\n");
    assert("\n"@ =~= seq!['\n']);
    reveal_strlit("- ");
    assert("- "@ =~= seq!['-', ' ']);
    reveal_strlit(": ");
    assert(": "@ =~= seq![':', ' ']);
    reveal_strlit(" [");
    assert(" ["@ =~= seq![' ', '[']);
    reveal_strlit("]");
    assert("]"@ =~= seq![']']);
    let lines = ctx.children@.map_values(|x: PromptChild| child_line(x));
    let all = longer.children@.map_values(|x: PromptChild| child_line(x));
    assert(all =~= lines.push(child_line(last)));
    text::joining_separates_neighbours(lines, child_line(last), "\n"@);
    if ctx.children@.len() == 0 {
        assert(lines =~= Seq::empty());
        assert(all =~= seq![child_line(last)]);
        assert(resolve(ctx, "children"@)->0 =~= Seq::<char>::empty());
    }
}

/// The list of blockers is empty without entries, and has one bullet per entry, in order, each on a
/// line of its own.
pub proof fn blockers_render_as_bullets(
    ctx: PromptContext,
    longer: PromptContext,
    last: PromptBlocker,
)
    requires
        longer.blockers@ == ctx.blockers@.push(last),
    ensures
        ctx.blockers@.len() == 0 ==> resolve(ctx, "blockers"@) == Some(Seq::<char>::empty()),
        ({
            let bullet = seq!['-', ' ', '['] + last.severity.text() + seq![']', ' '] + last.reason@;
            resolve(longer, "blockers"@) == Some(
                if ctx.blockers@.len() == 0 {
                    bullet
                } else {
                    resolve(ctx, "blockers"@)->0 + seq!['\n'] + bullet
                },
            )
        }),
{
    lemma_path_names();
    reveal_strlit("\n");
    assert("\n"@ =~= seq!['\n']);
    reveal_strlit("- [");
    assert("- ["@ =~= seq!['-', ' ', '[']);
    reveal_strlit("] ");
    assert("] "@ =~= seq![']', ' ']);
    let lines = ctx.blockers@.map_values(|x: PromptBlocker| blocker_line(x));
    let all = longer.blockers@.map_values(|x: PromptBlocker| blocker_line(x));
    assert(all =~= lines.push(blocker_line(last)));
    text::joining_separates_neighbours(lines, blocker_line(last), "\n"@);
    if ctx.blockers@.len() == 0 {
        assert(lines =~= Seq::empty());
        assert(all =~= seq![blocker_line(last)]);
        assert(resolve(ctx, "blockers"@)->0 =~= Seq::<char>::empty());
    }
}

/// The list of acceptance criteria is empty without entries, and has one bullet per entry, in order, each on a
/// line of its own.
pub proof fn acceptance_criteria_render_as_bullets(
    ctx: PromptContext,
    longer: PromptContext,
    last: String,
)
    requires
        longer.acceptance_criteria@ == ctx.acceptance_criteria@.push(last),
    ensures
        ctx.acceptance_criteria@.len() == 0
            ==> resolve(ctx, "acceptance_criteria"@) == Some(Seq::<char>::empty()),
        ({
            let bullet = seq!['-', ' '] + last@;
            resolve(longer, "acceptance_criteria"@) == Some(
                if ctx.acceptance_criteria@.len() == 0 {
                    bullet
                } else {
                    resolve(ctx, "acceptance_criteria"@)->0 + seq!['\n'] + bullet
                },
            )
        }),
{
    lemma_path_names();
    reveal_strlit("\n");
    assert("\n"@ =~= seq!['\n']);
    reveal_strlit("- ");
    assert("- "@ =~= seq!['-', ' ']);
    let lines = ctx.acceptance_criteria@.map_values(|x: String| criterion_line(x));
    let all = longer.acceptance_criteria@.map_values(|x: String| criterion_line(x));
    assert(all =~= lines.push(criterion_line(last)));
    text::joining_separates_neighbours(lines, criterion_line(last), "\n"@);
    if ctx.acceptance_criteria@.len() == 0 {
        assert(lines =~= Seq::empty());
        assert(all =~= seq![criterion_line(last)]);
        assert(resolve(ctx, "acceptance_criteria"@)->0 =~= Seq::<char>::empty());
    }
}

/// White space around a path means nothing.
pub proof fn padding_in_a_placeholder_means_nothing(
    ctx: PromptContext,
    before: Seq<char>,
    path: Seq<char>,
    after: Seq<char>,
)
    requires
        text::is_blank(before),
        text::is_blank(after),
        path.len() > 0,
        !text::is_whitespace_char(path[0]),
        !text::is_whitespace_char(path.last()),
    ensures
        expand(ctx, before + path + after) == expand(ctx, path),
{
    text::trimming_undoes_padding(before, path, after);
    text::trimming_undoes_padding(Seq::empty(), path, Seq::empty());
    assert(Seq::<char>::empty() + path + Seq::<char>::empty() =~= path);
}

/// A placeholder expands exactly where its path is known; one that is blank is invalid as
/// it stands, one with a blank segment is invalid, and any other is unknown.
pub proof fn placeholders_expand_where_their_path_is_known(ctx: PromptContext, raw: Seq<char>)
    ensures
        ({
            let path = text::trim(raw);
            let gap = exists|i: int|
                0 <= i < text::split(path, '.').len() && text::is_blank(
                    #[trigger] text::split(path, '.')[i],
                );
            &&& expand(ctx, raw) matches Ok(value) ==> resolve(ctx, path) == Some(value)
                && !text::is_blank(raw) && !gap
            &&& expand(ctx, raw) matches Err(RenderFailure::UnknownPath(p)) ==> p == path
                && resolve(ctx, path) is None && !text::is_blank(raw) && !gap
            &&& expand(ctx, raw) matches Err(RenderFailure::InvalidPath(p)) ==> (if text::is_blank(
                raw,
            ) {
                p == raw
            } else {
                p == path && gap
            })
            &&& !(expand(ctx, raw) matches Err(RenderFailure::Malformed(_)))
        }),
{
    text::blank_texts_hold_white_space_only(raw);
}

/// The prompt's view of an issue keeps its fields.
pub proof fn prompt_issues_keep_the_fields(shown: PromptIssue, issue: Issue)
    requires
        shown.projects(issue),
    ensures
        shown.identifier@ == issue.identifier@,
        shown.title@ == issue.title@,
        shown.state@ == issue.state@,
        text::text_or_empty(shown.description) == text::text_or_empty(issue.description),
        text::text_or_empty(shown.branch_name) == text::text_or_empty(issue.branch_name),
        text::text_or_empty(shown.url) == text::text_or_empty(issue.url),
        shown.description is Some <==> issue.description is Some,
        shown.branch_name is Some <==> issue.branch_name is Some,
        shown.url is Some <==> issue.url is Some,
{
}

/// A template without `{{` is returned unchanged.
pub proof fn plain_text_is_unchanged(ctx: PromptContext, template: Seq<char>)
    requires
        !text::has_pair(template, '{'),
    ensures
        rendered(ctx, template) == Ok::<Seq<char>, RenderFailure>(template),
{
    text::lemma_find_pair(template, '{');
}

/// A placeholder after plain text stands for what it expands to, in place: the
/// text before it is kept, its value is inserted as it is and never scanned
/// again, and what follows is rendered on its own. A placeholder that does not
/// expand fails the whole template with its own error.
pub proof fn placeholder_stands_for_its_value(
    ctx: PromptContext,
    before: Seq<char>,
    raw: Seq<char>,
    after: Seq<char>,
)
    requires
        !text::has_pair(before, '{'),
        before.len() > 0 ==> before.last() != '{',
        !text::has_pair(raw, '}'),
        raw.len() > 0 ==> raw.last() != '}',
    ensures
        rendered(ctx, before + seq!['{', '{'] + (raw + seq!['}', '}'] + after)) == (match expand(
            ctx,
            raw,
        ) {
            Ok(value) => after_text(before + value, rendered(ctx, after)),
            Err(e) => Err(e),
        }),
{
    let inner = raw + seq!['}', '}'] + after;
    let template = before + seq!['{', '{'] + inner;
    text::lemma_find_pair_after(before, inner, '{');
    text::lemma_around_pair(before, inner, '{');
    text::lemma_find_pair_after(raw, after, '}');
    text::lemma_around_pair(raw, after, '}');
    lemma_rendered_at(ctx, template, before.len() as int, raw.len() as int);
}

/// An opening `{{` that is never closed is an error that shows the template from
/// that place on.
pub proof fn unclosed_placeholder_is_malformed(
    ctx: PromptContext,
    before: Seq<char>,
    inner: Seq<char>,
)
    requires
        !text::has_pair(before, '{'),
        before.len() > 0 ==> before.last() != '{',
        !text::has_pair(inner, '}'),
    ensures
        rendered(ctx, before + seq!['{', '{'] + inner) == Err::<Seq<char>, RenderFailure>(
            RenderFailure::Malformed(seq!['{', '{'] + inner),
        ),
{
    let template = before + seq!['{', '{'] + inner;
    text::lemma_find_pair_after(before, inner, '{');
    text::lemma_find_pair(inner, '}');
    assert(template.skip(before.len() as int + 2) =~= inner);
    assert(template.skip(before.len() as int) =~= seq!['{', '{'] + inner);
}

} // verus!
