use std::path::Path;

use regin::bus::{parse_cursor, pending_lines, BusClient, BusMessage, KIND_STRUCTURED};
use regin::control_loop::{replan_request, standard_remedies, PlanningEscalation, Rag};
use regin::deputy::{DeputyError, DeputyRecord, DeputyState, DeputyStore};
use regin::desired::{
    cadence_tune, conflict_problem, desired_layer, recurrence_threshold, split_assertions_block, text_contradiction, AssertOp,
    DesiredSource,
    LayerFile::{Absent, Loaded, Unreadable},
};
use regin::escalation_routing::{route_escalation, EscalationRoute};
use regin::evaluate::{deviation_step, text_satisfies};
use regin::event_bus::{event_dependencies_satisfied, event_kind_of, trigger_applies, EventLedger};
use regin::filters::{is_filtered, load_filters, FilterRule, FilterSource};
use regin::foreman::{handover_recipient, plan_handover, CaveTask};
use regin::goal::{abandon_transition, activate_transition, evaluate_goal_decision, GoalError, GoalOutcome, GoalStatus};
use regin::greeting::{build, intent_rag_summary, parked_change_is_stale};
use regin::identity::{
    curator_step, import_refusal, legacy_episode_state, legacy_memory_tier, migration_outcome, session_close_episode,
    vacuum_into_sql, CuratorAction, CuratorStep,
};
use regin::intent::{arbitrate, from_wins, intent_is_active, relation_refusal, support_progress, IntentKind, Relation};
use regin::monitor::{failure_incident, linked_problem, monitor_step, problem_due, recurring_problem, FailureIncident};
use regin::overlay::overlay_keys;
use regin::types::{Change, Incident, Problem};
use regin::worker::{classify_run, Outcome, WorkerRun};

// --- deputy ---------------------------------------------------------------------

fn store() -> DeputyStore {
    DeputyStore::new(Path::new("/tmp/regin-deputy.json"))
}

#[test]
fn assign_starts_in_standby() {
    let mut s = store();
    assert!(s.record().is_none(), "no assignment yet");
    let rec = s.assign("cfo", "regin@cave-cfo");
    assert_eq!(rec.state, DeputyState::Standby);
    assert_eq!(rec.role, "cfo");
    assert_eq!(s.record().unwrap().primary, "regin@cave-cfo");
}

#[test]
fn activate_requires_supervisor_confirmation() {
    let mut s = store();
    s.assign("cfo", "regin@cave-cfo");
    assert!(s.activate(false).is_err());
    assert_eq!(s.record().unwrap().state, DeputyState::Standby);
    let rec = s.activate(true).unwrap();
    assert_eq!(rec.state, DeputyState::Active);
    assert_eq!(s.handback().unwrap().state, DeputyState::Standby);
}

/// The store's record as the text of a `deputy.json` file.
fn saved_deputy(s: &DeputyStore) -> String {
    let r = s.record().unwrap();
    let mut obj = serde_json::Map::new();
    obj.insert("role".into(), serde_json::Value::String(r.role.clone()));
    obj.insert("primary".into(), serde_json::Value::String(r.primary.clone()));
    let state = if r.state == DeputyState::Active { "active" } else { "standby" };
    obj.insert("state".into(), serde_json::Value::String(state.into()));
    obj.insert("brief".into(), serde_json::Value::String(r.brief.clone()));
    serde_json::Value::Object(obj).to_string()
}

/// A fresh store loaded from the text of its file.
fn loaded_deputy(path: &Path, saved: &str) -> DeputyStore {
    let v: serde_json::Value = serde_json::from_str(saved).unwrap();
    let text = |k: &str| v[k].as_str().unwrap().to_string();
    let state = if text("state") == "active" { DeputyState::Active } else { DeputyState::Standby };
    let record = DeputyRecord { role: text("role"), primary: text("primary"), state, brief: text("brief") };
    DeputyStore::loaded(path, Some(record))
}

#[test]
fn brief_round_trips_and_persists() {
    let path = Path::new("/tmp/regin-deputy.json");
    let mut s = DeputyStore::new(path);
    s.assign("cfo", "regin@cave-cfo");
    s.set_brief("budget freeze until Q2; open: vendor renewal").unwrap();
    let saved = saved_deputy(&s);
    assert!(loaded_deputy(path, &saved).record().unwrap().brief.contains("vendor renewal"));
    // activation keeps the brief
    let mut s = loaded_deputy(path, &saved);
    s.activate(true).unwrap();
    let saved = saved_deputy(&s);
    assert!(loaded_deputy(path, &saved).record().unwrap().brief.contains("budget freeze"));
}

#[test]
fn the_brief_survives_a_reload_of_the_record() {
    let mut s = store();
    s.assign("cfo", "regin@cave-cfo");
    s.set_brief("budget freeze until Q2; open: vendor renewal").unwrap();
    // what the caller writes back is what a later store is loaded with
    let saved = s.record().unwrap().duplicate();
    let mut reloaded = DeputyStore::loaded(Path::new("/tmp/regin-deputy.json"), Some(saved));
    assert!(reloaded.record().unwrap().brief.contains("vendor renewal"));
    reloaded.activate(true).unwrap();
    assert!(reloaded.record().unwrap().brief.contains("budget freeze"));
    assert_eq!(reloaded.record().unwrap().state, DeputyState::Active);
}

#[test]
fn operations_before_assign_error() {
    let mut s = store();
    assert_eq!(s.set_brief("x").unwrap_err(), DeputyError::NotAssigned);
    assert!(s.activate(true).is_err());
    assert!(s.handback().is_err());
}

#[test]
fn deputy_errors_have_their_texts() {
    let mut s = store();
    assert!(matches!(s.activate(false), Err(DeputyError::NotConfirmed)));
    assert_eq!(DeputyError::NotAssigned.message(), "no deputy assignment (run `regin deputy assign`)");
    assert_eq!(
        DeputyError::NotConfirmed.message(),
        "failover not confirmed by the supervisor — refusing to activate"
    );
    assert_eq!(s.path(), &Path::new("/tmp/regin-deputy.json").to_path_buf());
}

// --- bus --------------------------------------------------------------------------

#[test]
fn pending_lines_skip_consumed_and_blank_lines() {
    let lines: Vec<String> = vec!["a".into(), "b".into(), "   ".into(), "  c  ".into()];
    assert_eq!(pending_lines(&lines, 1), vec!["b".to_string(), "c".to_string()]);
    assert!(pending_lines(&lines, 4).is_empty());
    assert!(pending_lines(&lines, 99).is_empty());
}

#[test]
fn a_second_read_yields_only_the_lines_appended_since() {
    let mut lines: Vec<String> = vec!["one".into(), "two".into()];
    let first = pending_lines(&lines, 0);
    assert_eq!(first, vec!["one".to_string(), "two".to_string()]);
    let cursor = lines.len();
    assert!(pending_lines(&lines, cursor).is_empty());
    lines.push("three".into());
    lines.push("  ".into());
    assert_eq!(pending_lines(&lines, cursor), vec!["three".to_string()]);
}

#[test]
fn cursor_parses_a_count_and_falls_back_to_zero() {
    assert_eq!(parse_cursor(" 12\n"), 12);
    assert_eq!(parse_cursor("+7"), 7);
    assert_eq!(parse_cursor(""), 0);
    assert_eq!(parse_cursor("x1"), 0);
    assert_eq!(parse_cursor("-3"), 0);
    assert_eq!(parse_cursor("99999999999999999999999"), 0);
}

#[test]
fn inform_stamps_our_address() {
    let c = BusClient::new("regin@cave-a", Path::new("/tmp/in"), Path::new("/tmp/out"));
    let m = c.inform("ceo@hq", "hello");
    assert_eq!(m.sender, "regin@cave-a");
    assert_eq!(m.recipient, "ceo@hq");
    assert_eq!(m.kind, "unstructured");
    assert_eq!(m.body, "hello");
    assert!(m.ref_id.is_none());
    let s = c.message_to("ceo@hq", KIND_STRUCTURED, "{}", Some("R-1"));
    assert_eq!(s.ref_id.as_deref(), Some("R-1"));
    assert_eq!(c.address(), "regin@cave-a");
}

#[test]
fn the_client_keeps_its_files_and_puts_the_cursor_beside_the_inbox() {
    let c = BusClient::new("regin@cave-a", Path::new("/tmp/in.jsonl"), Path::new("/tmp/out.jsonl"));
    assert_eq!(c.inbox_path(), &Path::new("/tmp/in.jsonl").to_path_buf());
    assert_eq!(c.outbox_path(), &Path::new("/tmp/out.jsonl").to_path_buf());
    assert_eq!(c.cursor_path(), &Path::new("/tmp/in.cursor").to_path_buf());
}

#[test]
fn the_deputy_store_keeps_its_file_through_every_operation() {
    let mut s = store();
    s.assign("cfo", "regin@cave-cfo");
    s.activate(true).unwrap();
    assert_eq!(s.path(), &Path::new("/tmp/regin-deputy.json").to_path_buf());
}

// --- event bus ------------------------------------------------------------------

fn structured_msg(body: &str) -> BusMessage {
    BusMessage {
        id: 1,
        sender: "a".into(),
        recipient: "b".into(),
        kind: KIND_STRUCTURED.into(),
        body: body.into(),
        ref_id: None,
        channel: None,
    }
}

#[test]
fn event_from_bus_message_maps_a_structured_body_by_its_kind_field() {
    let msg = structured_msg(r#"{"kind":"goal.created","goal_id":"g-1"}"#);
    assert_eq!(event_kind_of(&msg).as_deref(), Some("goal.created"));
}

#[test]
fn event_from_bus_message_ignores_unstructured_messages() {
    let msg = BusMessage { kind: "unstructured".into(), body: "just chatting".into(), ..structured_msg("") };
    assert!(event_kind_of(&msg).is_none());
}

#[test]
fn event_from_bus_message_ignores_a_structured_body_without_a_kind_field() {
    assert!(event_kind_of(&structured_msg(r#"{"foo":"bar"}"#)).is_none());
}

#[test]
fn event_from_bus_message_ignores_malformed_json() {
    assert!(event_kind_of(&structured_msg("not json")).is_none());
}

#[test]
fn publishing_an_event_satisfies_a_matching_task_dependency() {
    let mut ledger = EventLedger::new();
    let deps = vec!["goal.created".to_string()];
    assert!(!event_dependencies_satisfied(&deps, &ledger));
    ledger.record("goal.created");
    assert!(event_dependencies_satisfied(&deps, &ledger));
}

#[test]
fn a_task_with_multiple_event_deps_needs_all_of_them_to_fire() {
    let mut ledger = EventLedger::new();
    let deps = vec!["a".to_string(), "b".to_string()];
    ledger.record("a");
    assert!(!event_dependencies_satisfied(&deps, &ledger));
    ledger.record("b");
    assert!(event_dependencies_satisfied(&deps, &ledger));
    ledger.record("a");
    assert!(event_dependencies_satisfied(&deps, &ledger), "a fired event stays fired");
    assert!(event_dependencies_satisfied(&[], &EventLedger::new()));
}

#[test]
fn triggers_apply_only_to_their_kind_and_condition() {
    assert!(trigger_applies("incident.created", "incident.created", true));
    assert!(!trigger_applies("incident.created", "goal.created", true));
    assert!(!trigger_applies("incident.created", "incident.created", false));
}

// --- filters --------------------------------------------------------------------

fn rule(name: &str, contains: &str, domain: Option<&str>, source: FilterSource) -> FilterRule {
    FilterRule { name: name.into(), contains: contains.into(), domain: domain.map(|d| d.to_string()), source }
}

#[test]
fn parses_and_matches_case_insensitively_with_domain_scope() {
    let rules = vec![
        rule("debug", "DEBUG", None, FilterSource::System),
        rule("net-blip", "transient", Some("network"), FilterSource::System),
    ];
    assert!(is_filtered(&rules, "logs", "a debug line"));
    assert!(is_filtered(&rules, "anything", "DEBUG: x"));
    assert!(is_filtered(&rules, "network", "transient blip"));
    assert!(!is_filtered(&rules, "disk", "transient blip"));
    assert!(!is_filtered(&rules, "logs", "all good"));
}

#[test]
fn user_rules_override_and_add() {
    let sys = vec![rule("a", "sys-text", None, FilterSource::System)];
    let user = vec![rule("a", "user-text", None, FilterSource::User), rule("b", "extra", None, FilterSource::User)];
    let rules = load_filters(sys, user);
    let a = rules.iter().find(|r| r.name == "a").unwrap();
    assert_eq!(a.contains, "user-text");
    assert_eq!(a.source, FilterSource::User);
    assert!(rules.iter().any(|r| r.name == "b"));
    assert_eq!(rules.len(), 2);
}

#[test]
fn loaded_filters_are_sorted_by_name_with_one_per_name() {
    let sys = vec![rule("z", "1", None, FilterSource::System), rule("m", "2", None, FilterSource::System)];
    let user = vec![rule("m", "3", None, FilterSource::User), rule("m", "4", None, FilterSource::User)];
    let rules = load_filters(sys, user);
    let names: Vec<&str> = rules.iter().map(|r| r.name.as_str()).collect();
    assert_eq!(names, vec!["m", "z"]);
    assert_eq!(rules[0].contains, "4", "the last user rule of a name wins");
}

// --- overlay ----------------------------------------------------------------------

#[test]
fn overlay_keys_prefer_user_entries_and_sort_by_name() {
    let system = vec!["net".to_string(), "disk".to_string()];
    let user = vec!["disk".to_string()];
    assert_eq!(overlay_keys(&system, &user), vec![(true, 0), (false, 0)]);
    assert!(overlay_keys(&[], &[]).is_empty());
}

// --- desired --------------------------------------------------------------------

#[test]
fn op_aliases_parse() {
    assert_eq!(AssertOp::parse(">=").unwrap(), AssertOp::Ge);
    assert_eq!(AssertOp::parse("LTE").unwrap(), AssertOp::Le);
    assert_eq!(AssertOp::parse("!=").unwrap(), AssertOp::Ne);
    assert!(AssertOp::parse("approximately").is_err());
}

#[test]
fn unknown_operator_is_named() {
    assert_eq!(AssertOp::parse(" Approximately ").unwrap_err(), "unknown assertion operator: \"approximately\"");
    assert_eq!(AssertOp::Ge.as_str(), "ge");
}

#[test]
fn intent_and_assertions_block_are_split() {
    let md = "# disk\n\nKeep free space.\n\n```assertions\n[[assert]]\nkey=\"k\"\n```\n\nMore intent.\n";
    let (intent, block) = split_assertions_block(md);
    assert!(intent.contains("Keep free space."));
    assert!(intent.contains("More intent."));
    assert!(!intent.contains("[[assert]]"));
    assert_eq!(block.as_deref(), Some("[[assert]]\nkey=\"k\""));
    let (only, none) = split_assertions_block("# Notes\n\nKeep things tidy.\n");
    assert_eq!(only, "# Notes\n\nKeep things tidy.");
    assert!(none.is_none());
}

#[test]
fn detects_text_contradictions() {
    let on = |op: AssertOp, v: &str| (op, v.to_string());
    assert!(text_contradiction("k", &[on(AssertOp::Eq, "on")]).is_none());
    assert_eq!(
        text_contradiction("k", &[on(AssertOp::Eq, "on"), on(AssertOp::Eq, "off")]).unwrap(),
        "`k` must equal multiple different text values"
    );
    assert_eq!(
        text_contradiction("k", &[on(AssertOp::Lt, "on")]).unwrap(),
        "`k` uses an ordering operator on a text value"
    );
    assert_eq!(
        text_contradiction("k", &[on(AssertOp::Eq, "on"), on(AssertOp::Ne, "on")]).unwrap(),
        "`k` both equals and does not equal \"on\""
    );
}

#[test]
fn conflict_problem_lists_the_reasons() {
    let (title, desc) = conflict_problem("memory", &["one".to_string(), "two".to_string()]);
    assert_eq!(title, "desired-state conflict: memory");
    assert_eq!(desc, "The to-be state for `memory` is ambiguous/contradictory and needs a human:\n- one\n- two");
}

#[test]
fn recurrence_threshold_override_then_default() {
    // override wins; no override falls back; a missing domain falls back
    assert_eq!(recurrence_threshold(Absent, Loaded(Some(7)), 3), 7);
    assert_eq!(recurrence_threshold(Absent, Loaded(None), 3), 3);
    assert_eq!(recurrence_threshold(Absent, Absent, 3), 3);
    // a user file shadows the system file's threshold
    assert_eq!(recurrence_threshold(Loaded(Some(2)), Loaded(Some(7)), 3), 2);
    assert_eq!(recurrence_threshold(Loaded(None), Loaded(Some(7)), 3), 3);
    // an unreadable user file is fail-safe: the default, not the system value
    assert_eq!(recurrence_threshold(Unreadable, Loaded(Some(7)), 3), 3);
    assert_eq!(recurrence_threshold(Absent, Unreadable, 3), 3);
}

#[test]
fn cadence_tune_is_read_from_the_layered_state() {
    assert_eq!(cadence_tune(Absent, Loaded(Some("every 15m".to_string()))).as_deref(), Some("every 15m"));
    assert_eq!(cadence_tune(Loaded(Some("hourly".to_string())), Loaded(Some("every 15m".to_string()))).as_deref(), Some("hourly"));
    assert_eq!(cadence_tune(Absent, Loaded(None)), None);
    assert_eq!(cadence_tune(Unreadable, Loaded(Some("daily".to_string()))), None);
    assert_eq!(cadence_tune(Absent, Absent), None);
}

#[test]
fn the_user_file_is_read_before_the_system_file() {
    assert_eq!(desired_layer(true, true), Some(DesiredSource::User));
    assert_eq!(desired_layer(false, true), Some(DesiredSource::System));
    assert_eq!(desired_layer(false, false), None);
}

#[test]
fn text_targets_compare_exactly() {
    assert!(text_satisfies("rw", AssertOp::Eq, "rw"));
    assert!(text_satisfies("rw", AssertOp::Ne, "ro"));
    assert!(!text_satisfies("rw", AssertOp::Lt, "ro"));
}

// --- foreman --------------------------------------------------------------------

fn structured(body: &str) -> BusMessage {
    BusMessage {
        id: 1,
        sender: "ceo@hq".into(),
        recipient: "regin@cave-a".into(),
        kind: KIND_STRUCTURED.into(),
        body: body.into(),
        ref_id: None,
        channel: None,
    }
}

fn task(text: &str, ref_id: Option<&str>, reply_to: Option<&str>) -> CaveTask {
    CaveTask {
        task: text.into(),
        worker: "opencode".into(),
        cwd: None,
        reply_to: reply_to.map(|s| s.to_string()),
        ref_id: ref_id.map(|s| s.to_string()),
    }
}

#[test]
fn non_task_messages_are_ignored() {
    let mut m = structured(r#"{"task":"x"}"#);
    m.kind = "unstructured".into();
    assert!(CaveTask::from_parsed(&m, Some(task("x", None, None))).is_none());
    assert!(CaveTask::from_parsed(&structured(r#"{"hello":"world"}"#), None).is_none());
    assert!(CaveTask::from_parsed(&structured(r#"{"task":"   "}"#), Some(task("   ", None, None))).is_none());
    let t = CaveTask::from_parsed(&structured(r#"{"task":"fix"}"#), Some(task("fix", Some("T-9"), None))).unwrap();
    assert_eq!(t.task, "fix");
    assert_eq!(t.ref_id.as_deref(), Some("T-9"));
}

fn run(outcome: Outcome, output: &str, code: Option<i32>) -> WorkerRun {
    WorkerRun { outcome, output: output.into(), exit_code: code }
}

#[test]
fn done_run_handover_has_no_incident() {
    let t = task("x", Some("T-1"), None);
    let (h, inc) = plan_handover(&t, &run(Outcome::Done, "patch applied", Some(0)));
    assert_eq!(h.outcome, "done");
    assert_eq!(h.ref_id.as_deref(), Some("T-1"));
    assert_eq!(h.summary, "patch applied");
    assert!(inc.is_none());
}

#[test]
fn failed_run_drafts_an_incident() {
    let t = task("build", Some("T-2"), None);
    let (h, inc) = plan_handover(&t, &run(Outcome::Failed, "error: boom", Some(1)));
    assert_eq!(h.outcome, "failed");
    let inc = inc.expect("failure must draft an incident");
    assert!(inc.title.contains("T-2") && inc.title.contains("failed"));
    assert!(inc.description.contains("boom"));
    assert_eq!(inc.severity, "medium");
    let (_, inc2) = plan_handover(&t, &run(Outcome::Empty, "", Some(0)));
    assert!(inc2.is_some());
}

#[test]
fn incident_draft_is_worded_exactly() {
    let t = task("build", None, None);
    let (h, inc) = plan_handover(&t, &run(Outcome::Failed, "  error: boom  ", Some(2)));
    assert_eq!(h.summary, "error: boom");
    assert_eq!(h.exit_code, Some(2));
    let inc = inc.unwrap();
    assert_eq!(inc.title, "cave-task (no-ref) worker failed");
    assert_eq!(inc.description, "worker=opencode outcome=failed exit=Some(2)\ntask: build\noutput:\nerror: boom");
    let long = "x".repeat(600);
    let (h2, _) = plan_handover(&t, &run(Outcome::Done, &long, None));
    assert_eq!(h2.summary.chars().count(), 500);
}

#[test]
fn handover_recipient_prefers_reply_to_then_sender() {
    let m = structured(r#"{"task":"x","reply_to":"cto@hq"}"#);
    assert_eq!(handover_recipient(&task("x", None, Some("cto@hq")), &m), "cto@hq");
    assert_eq!(handover_recipient(&task("x", None, None), &m), "ceo@hq");
}

// --- goals ----------------------------------------------------------------------

#[test]
fn activate_requires_proposed_and_is_not_idempotent() {
    assert_eq!(activate_transition("proposed").unwrap(), (GoalStatus::Active, Rag::Green));
    let err = activate_transition("active").unwrap_err();
    assert_eq!(err.message("g-1"), "goal g-1 is active — only a proposed goal can be activated");
}

#[test]
fn terminal_goals_cannot_be_abandoned() {
    assert_eq!(abandon_transition("proposed").unwrap(), (GoalStatus::Abandoned, Rag::Red));
    assert_eq!(abandon_transition("active").unwrap(), (GoalStatus::Abandoned, Rag::Red));
    for s in ["achieved", "failed", "abandoned"] {
        let err = abandon_transition(s).unwrap_err();
        assert_eq!(err.message("g"), format!("goal g is already {s} — nothing to abandon"));
    }
}

#[test]
fn every_status_reads_back_as_itself() {
    for st in [GoalStatus::Proposed, GoalStatus::Active, GoalStatus::Achieved, GoalStatus::Failed, GoalStatus::Abandoned] {
        assert_eq!(GoalStatus::parse(st.as_str()).unwrap(), st);
        assert_eq!(GoalStatus::parse(&st.as_str().to_uppercase()).unwrap(), st);
    }
}

#[test]
fn unknown_goal_status_is_named() {
    assert_eq!(GoalStatus::parse(" Paused ").unwrap_err(), "unknown goal status: \"paused\"");
    assert_eq!(GoalStatus::parse("ACTIVE").unwrap(), GoalStatus::Active);
    match activate_transition("paused") {
        Err(GoalError::UnknownStatus(m)) => assert_eq!(m, "unknown goal status: \"paused\""),
        other => panic!("unexpected {other:?}"),
    }
}

const DEADLINE: &str = "2030-01-01T00:00:00Z";
const DEADLINE_SECS: i64 = 1_893_456_000;

#[test]
fn evaluate_goal_is_a_noop_on_a_non_active_goal() {
    assert_eq!(evaluate_goal_decision("proposed", true, DEADLINE, 0, 0).unwrap(), GoalOutcome::NotActive);
}

#[test]
fn evaluate_goal_achieves_when_every_criterion_holds() {
    assert_eq!(evaluate_goal_decision("active", true, DEADLINE, DEADLINE_SECS + 10, 0).unwrap(), GoalOutcome::Achieved);
}

#[test]
fn evaluate_goal_stays_active_before_and_fails_at_the_deadline() {
    assert_eq!(evaluate_goal_decision("active", false, DEADLINE, DEADLINE_SECS - 1, 0).unwrap(), GoalOutcome::StillActive);
    assert_eq!(evaluate_goal_decision("active", false, DEADLINE, DEADLINE_SECS, 0).unwrap(), GoalOutcome::Failed);
}

#[test]
fn an_unparseable_deadline_is_an_error() {
    match evaluate_goal_decision("active", false, "soon", 0, 0) {
        Err(e) => assert_eq!(e.message("g"), "goal g has an unparseable deadline: \"soon\""),
        Ok(o) => panic!("unexpected {o:?}"),
    }
}

// --- intents ----------------------------------------------------------------------

fn relation(from: &str, to: &str) -> Relation {
    Relation {
        id: "rel-1".into(),
        from_kind: "goal".into(),
        from_id: from.into(),
        to_kind: "objective".into(),
        to_id: to.into(),
        relation: "conflicts_with".into(),
        credited_at: None,
        created_at: "now".into(),
    }
}

#[test]
fn arbitration_selects_by_priority() {
    let (wk, wi, dk, di) = arbitrate(&relation("g-a", "o-b"), 1, 2);
    assert_eq!((wk.as_str(), wi.as_str(), dk.as_str(), di.as_str()), ("goal", "g-a", "objective", "o-b"));
    let (_, wi, _, di) = arbitrate(&relation("g-a", "o-b"), 5, 2);
    assert_eq!((wi.as_str(), di.as_str()), ("o-b", "g-a"));
}

#[test]
fn arbitration_breaks_ties_deterministically_by_id() {
    assert!(from_wins(1, 1, "a", "b"));
    assert!(!from_wins(1, 1, "b", "a"));
    assert!(from_wins(1, 2, "z", "a"));
}

#[test]
fn progress_counts_credited_supporters() {
    let p = support_progress(&[Some("t".to_string()), None, Some("u".to_string())]);
    assert_eq!(p.supporters, 3);
    assert_eq!(p.achieved_supporters, 2);
    assert_eq!(IntentKind::parse("Objective").unwrap(), IntentKind::Objective);
}

#[test]
fn relations_reject_unknown_kinds_dangling_ids_and_self_loops() {
    assert_eq!(
        relation_refusal("epic", "g1", "goal", "g2", "supports", true, true).unwrap(),
        "unknown intent kind: \"epic\""
    );
    assert_eq!(
        relation_refusal("goal", "g1", "goal", "g2", "blocks", true, true).unwrap(),
        "unknown relation kind: \"blocks\""
    );
    assert_eq!(relation_refusal("goal", "g1", "goal", "g2", "supports", false, true).unwrap(), "no such goal g1");
    assert_eq!(relation_refusal("goal", "g1", "objective", "o9", "supports", true, false).unwrap(), "no such objective o9");
    assert_eq!(
        relation_refusal("goal", "g1", "goal", "g1", "conflicts_with", true, true).unwrap(),
        "an intent cannot relate to itself"
    );
    assert_eq!(relation_refusal("goal", "g1", "objective", "g1", "supports", true, true), None);
}

#[test]
fn only_active_goals_and_any_objective_are_pursued() {
    assert!(intent_is_active(IntentKind::Goal, "active"));
    assert!(!intent_is_active(IntentKind::Goal, "proposed"));
    assert!(intent_is_active(IntentKind::Objective, ""));
}

// --- escalation routing -----------------------------------------------------------

#[test]
fn escalations_route_by_source() {
    assert_eq!(route_escalation("dvalin").unwrap(), EscalationRoute::Bus);
    assert_eq!(route_escalation("human").unwrap(), EscalationRoute::PushAndPark);
    assert_eq!(route_escalation("regin").unwrap(), EscalationRoute::Park);
    assert!(route_escalation("martian").is_err());
}

// --- monitor ----------------------------------------------------------------------

#[test]
fn monitor_words_incidents_and_problems() {
    let (title, desc, summary) = failure_incident("disk", "boom");
    assert_eq!(title, "disk failed");
    assert_eq!(desc, "boom");
    assert_eq!(summary, "monitor opened incident for `disk`");
    let (pt, pd) = recurring_problem("disk", 3);
    assert_eq!(pt, "recurring failures: disk");
    assert_eq!(pd, "3 incidents recorded for `disk`");
    assert!(problem_due(3, 3));
    assert!(!problem_due(2, 3));
    assert!(!problem_due(9, 0), "a zero threshold never opens a problem");
    assert_eq!(linked_problem(&[None, Some("P-1".into()), Some("P-2".into())]).as_deref(), Some("P-1"));
    assert_eq!(linked_problem(&[None, None]), None);
}

// --- greeting -------------------------------------------------------------------

fn incident(id: &str, status: &str) -> Incident {
    Incident {
        id: id.into(),
        title: "t".into(),
        description: String::new(),
        severity: "high".into(),
        status: status.into(),
        source: "monitor".into(),
        skill_name: None,
        workaround: None,
        opened_at: "now".into(),
        updated_at: "now".into(),
        resolved_at: None,
        resolution: None,
    }
}

fn change(id: &str, status: &str) -> Change {
    Change {
        id: id.into(),
        title: "restart svc".into(),
        description: "fix".into(),
        status: status.into(),
        incident_id: None,
        problem_id: None,
        before: None,
        after: None,
        approved_by: None,
        approved_at: None,
        created_at: "now".into(),
        applied_at: None,
    }
}

fn problem(id: &str, status: &str) -> Problem {
    Problem {
        id: id.into(),
        title: "recurring crash".into(),
        description: "?".into(),
        status: status.into(),
        root_cause: None,
        created_at: "now".into(),
        updated_at: "now".into(),
        closed_at: None,
    }
}

#[test]
fn greeting_surfaces_health_and_actions() {
    let incidents = vec![incident("i1", "open"), incident("i2", "investigating"), incident("i3", "resolved")];
    let changes = vec![change("c1", "pending_approval"), change("c2", "applied")];
    let problems = vec![problem("p1", "open"), problem("p2", "closed")];
    let g = build("standalone", &incidents, &changes, &problems, &[]);
    assert!(g.has_actions());
    assert!(g.health_line().contains("standalone"));
    assert_eq!(g.open_incidents, 2);
    assert_eq!(g.open_problems, 1);
    assert_eq!(g.pending_changes.len(), 1);
    assert_eq!(g.pending_changes[0].id, "c1");
    assert_eq!(g.decision_problems[0].id, "p1");
}

#[test]
fn quiet_system_has_no_actions() {
    let g = build("org", &[], &[], &[], &[]);
    assert!(!g.has_actions());
    assert_eq!(g.open_incidents, 0);
    assert_eq!(g.health_line(), "mode=org | 0 open incident(s), 0 open problem(s)");
}

#[test]
fn greeting_surfaces_parked_intent_escalations() {
    let esc = PlanningEscalation {
        goal_id: "goal-1".into(),
        source: "human".into(),
        reason: "tasks still failing after mitigate/replan: t1".into(),
        remedies: standard_remedies(),
    };
    let g = build("standalone", &[], &[], &[], &[esc]);
    assert!(g.has_actions());
    assert_eq!(g.intent_escalations.len(), 1);
    assert_eq!(g.intent_escalations[0].id, "goal-1");
    assert_eq!(g.intent_escalations[0].kind, "intent_escalation");
}

#[test]
fn intent_rag_summary_counts_goals_and_objectives_by_rag() {
    let goals = vec!["green".to_string(), "green".to_string(), "red".to_string()];
    let objectives = vec!["green".to_string(), "amber".to_string()];
    let s = intent_rag_summary(&goals, &objectives);
    assert_eq!((s.goals_green, s.goals_amber, s.goals_red), (2, 0, 1));
    assert_eq!((s.objectives_green, s.objectives_amber, s.objectives_red), (1, 1, 0));
}

#[test]
fn a_parked_change_is_stale_once_its_incident_resolved() {
    assert!(parked_change_is_stale(Some("resolved")));
    assert!(parked_change_is_stale(Some("closed")));
    assert!(!parked_change_is_stale(Some("open")));
    assert!(!parked_change_is_stale(None));
}

// --- identity store ---------------------------------------------------------------

#[test]
fn vacuum_statement_quotes_the_path() {
    assert_eq!(vacuum_into_sql("/tmp/a.db"), "VACUUM INTO '/tmp/a.db'");
    assert_eq!(vacuum_into_sql("/tmp/o'brien.db"), "VACUUM INTO '/tmp/o''brien.db'");
}

#[test]
fn legacy_rows_map_to_state_and_tier() {
    assert_eq!(legacy_episode_state(true), "consolidated");
    assert_eq!(legacy_episode_state(false), "new");
    assert_eq!(legacy_memory_tier("human", 1), "long");
    assert_eq!(legacy_memory_tier("reflection", 3), "long");
    assert_eq!(legacy_memory_tier("reflection", 2), "medium");
}

#[test]
fn a_migration_that_lost_rows_is_refused() {
    let ok = migration_outcome(2, 3, 2, 3).unwrap();
    assert_eq!((ok.episodes, ok.memories, ok.did_run), (2, 3, true));
    match migration_outcome(2, 3, 1, 3) {
        Err(m) => assert_eq!(m, "Migration count mismatch: episodes 1 vs 2, memories 3 vs 3"),
        Ok(_) => panic!("a short copy must be refused"),
    }
}

#[test]
fn snapshots_of_another_identity_are_refused() {
    assert_eq!(
        import_refusal("id-b", "id-a", true).unwrap(),
        "Snapshot belongs to a different identity (id-b). Refusing to merge distinct identities."
    );
    assert_eq!(
        import_refusal("id-a", "id-a", false).unwrap(),
        "Identity 'id-a' already exists and --merge was not specified. Use --merge to import without overwriting existing data."
    );
    assert_eq!(import_refusal("id-a", "id-a", true), None);
}

#[test]
fn closing_a_session_records_one_episode_with_a_fallback_summary() {
    assert_eq!(session_close_episode(true, Some("done")).as_deref(), Some("done"));
    assert_eq!(session_close_episode(true, None).as_deref(), Some("session closed without summary"));
    assert_eq!(session_close_episode(false, Some("done")), None);
}

#[test]
fn curator_proposals_with_blank_fields_do_nothing() {
    assert_eq!(curator_step(CuratorAction::Add, "  ", "x", None, None), CuratorStep::Skip);
    assert_eq!(curator_step(CuratorAction::Add, "fact", "   ", None, None), CuratorStep::Skip);
    assert_eq!(
        curator_step(CuratorAction::Add, " fact ", " sky is blue ", None, None),
        CuratorStep::Add { category: "fact".into(), content: "sky is blue".into() }
    );
    assert_eq!(curator_step(CuratorAction::Update, "fact", "x", None, None), CuratorStep::Skip);
    // a target that names no stored memory is left alone
    assert_eq!(curator_step(CuratorAction::Update, "fact", "x", Some("gone"), None), CuratorStep::Skip);
    assert_eq!(curator_step(CuratorAction::Delete, "fact", "x", Some("gone"), None), CuratorStep::Skip);
    assert_eq!(curator_step(CuratorAction::Noop, "fact", "x", Some("m1"), None), CuratorStep::Skip);
}

#[test]
fn the_curator_never_touches_principle_memories() {
    assert_eq!(curator_step(CuratorAction::Add, "principle", "be kind", None, None), CuratorStep::Skip);
    assert_eq!(curator_step(CuratorAction::Update, "fact", "x", Some("m1"), Some("principle")), CuratorStep::Skip);
    assert_eq!(curator_step(CuratorAction::Delete, "fact", "x", Some("m1"), Some("principle")), CuratorStep::Skip);
    assert_eq!(
        curator_step(CuratorAction::Update, "fact", "new", Some("m1"), Some("fact")),
        CuratorStep::Update { target_id: "m1".into(), category: "fact".into(), content: "new".into() }
    );
    assert_eq!(
        curator_step(CuratorAction::Delete, "fact", "x", Some("m1"), Some("fact")),
        CuratorStep::Delete { target_id: "m1".into() }
    );
}

#[test]
fn a_failed_run_touches_the_active_incident_or_opens_one() {
    assert_eq!(monitor_step("success", None, "disk", "ok"), None);
    assert_eq!(
        monitor_step("failed", Some("inc-1"), "disk", "boom"),
        Some(FailureIncident::Touch { incident_id: "inc-1".into() })
    );
    assert_eq!(
        monitor_step("failed", None, "disk", "boom"),
        Some(FailureIncident::Open {
            title: "disk failed".into(),
            description: "boom".into(),
            episode_summary: "monitor opened incident for `disk`".into(),
        })
    );
}

#[test]
fn deviations_touch_the_domain_incident_or_open_one() {
    assert_eq!(deviation_step(&vec![], Some("inc-1"), "disk"), None);
    let devs = vec![
        "disk.root.use_percent is 95 (target <= 90)".to_string(),
        "disk.fs.mode is \"ro\" (target == \"rw\")".to_string(),
    ];
    assert_eq!(
        deviation_step(&devs, Some("inc-1"), "disk"),
        Some(FailureIncident::Touch { incident_id: "inc-1".into() })
    );
    assert_eq!(
        deviation_step(&devs, None, "disk"),
        Some(FailureIncident::Open {
            title: "disk deviates from target".into(),
            description: "disk.root.use_percent is 95 (target <= 90); disk.fs.mode is \"ro\" (target == \"rw\")".into(),
            episode_summary: "observed-vs-target deviation for `disk`".into(),
        })
    );
}

#[test]
fn worker_runs_are_classified_by_exit_and_output() {
    assert_eq!(classify_run(false, "partial"), Outcome::Failed);
    assert_eq!(classify_run(true, "  \n "), Outcome::Empty);
    assert_eq!(classify_run(true, "patched"), Outcome::Done);
}

#[test]
fn a_round_replans_only_while_something_still_fails() {
    assert_eq!(replan_request(&vec![]), None);
    assert_eq!(
        replan_request(&vec!["t1".to_string(), "t2".to_string()]).as_deref(),
        Some("tasks failed and could not be mitigated: t1, t2")
    );
}

#[test]
fn an_unknown_escalation_source_is_named() {
    assert_eq!(route_escalation(" Martian ").unwrap_err(), "unknown intent source: \"martian\"");
}

#[test]
fn a_publish_sequence_satisfies_exactly_the_published_kinds() {
    let mut ledger = EventLedger::new();
    for k in ["goal.created", "task.completed", "goal.created"] {
        ledger.record(k);
    }
    assert!(event_dependencies_satisfied(&["goal.created".to_string(), "task.completed".to_string()], &ledger));
    assert!(!event_dependencies_satisfied(&["task.failed".to_string()], &ledger));
    assert!(event_dependencies_satisfied(&[], &ledger));
}
