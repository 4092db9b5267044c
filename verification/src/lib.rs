//! The decision-making core of an agent orchestrator: queues of work, the checks that
//! handoffs, integrations and verdicts have to pass, the runners that dispatch work
//! under bounded concurrency, and the poll loop that claims issues.

pub mod blocker;
pub mod cancellation;
pub mod checks;
pub mod claims;
pub mod concurrency_gate;
pub mod events;
pub mod followup;
pub mod followup_approval_admission;
pub mod followup_approval_runner;
pub mod followup_approval_tick;
pub mod followup_policy;
pub mod followup_request;
pub mod followup_routing;
pub mod handoff;
pub mod heartbeat;
pub mod intake_tick;
pub mod integration;
pub mod integration_admission;
pub mod integration_request;
pub mod integration_runner;
pub mod integration_tick;
pub mod jitter;
pub mod lease;
pub mod logical_queue;
pub mod parent_close;
pub mod poll_loop;
pub mod prompt;
pub mod pull_request;
pub mod qa;
pub mod qa_blocker;
pub mod qa_blocker_policy;
pub mod qa_request;
pub mod queue_tick;
pub mod role;
pub mod run_lease;
pub mod runner_core;
pub mod state_machine;
pub mod text;
pub mod tracker;
pub mod work_item;
