use regin::audit::Finding;
use regin::desired::{DesiredInfo, DesiredSource};
use regin::filters::{FilterRule, FilterSource};
use regin::greeting::Greeting;
use regin::render::{
    apply_chat_event, fmt_secs, render_audit, render_changes, render_checks, render_config_entries,
    render_config_value, render_context_show, render_desired_list, render_filters, render_greeting,
    render_hypotheses, render_incidents, render_memory_info, render_memory_list, render_memory_search,
    render_mode, render_ok, render_ping, render_problems, render_reflect_stats, render_runs,
    render_schedules, render_soul_charter, render_soul_charter_proposal, render_soul_charter_written,
    render_soul_principle_ratified, render_soul_principle_rejected, render_soul_principles,
    render_soul_value_detail, render_soul_values_list, render_task_created, render_task_list,
    render_task_result, render_task_show, render_tool_call, render_tool_result, sid,
};
use regin::types::{
    Change, DerivedCheck, Incident, Memory, Principle, Problem, ProblemHypothesis, Response, Schedule,
    SkillInfo, TaskRun, ValueEntry,
};

fn incident(status: &str) -> Incident {
    Incident {
        id: "incident-0001".into(),
        title: "disk full".into(),
        description: "".into(),
        severity: "high".into(),
        status: status.into(),
        source: "monitor".into(),
        skill_name: None,
        workaround: None,
        opened_at: "now".into(),
        updated_at: "now".into(),
        resolved_at: None,
        resolution: None,
    }
}

#[test]
fn render_ok_has_checkmark() {
    assert_eq!(render_ok("saved"), "✓ saved\n");
}

#[test]
fn render_ping_reports_state() {
    assert_eq!(render_ping(true), "regind is running ✓\n");
    assert_eq!(render_ping(false), "regind is not reachable\n");
}

#[test]
fn render_task_list_empty() {
    let out = render_task_list(&[]);
    assert!(out.contains("No tasks found"));
}

#[test]
fn render_task_list_shows_name_source_description() {
    let skills = vec![SkillInfo { name: "disk-usage".into(), description: "check disk".into(), source: "user".into() }];
    let out = render_task_list(&skills);
    assert!(out.contains("disk-usage"));
    assert!(out.contains("user"));
    assert!(out.contains("check disk"));
}

#[test]
fn render_task_show_lists_files() {
    let out = render_task_show("disk-usage", "desc", "prompt text", &["notes.md".to_string()]);
    assert!(out.contains("Task: disk-usage"));
    assert!(out.contains("prompt text"));
    assert!(out.contains("notes.md"));
}

#[test]
fn render_schedules_empty_and_nonempty() {
    assert!(render_schedules(&[]).contains("No active schedules"));
    let s = vec![Schedule {
        id: "1".into(),
        skill: "disk-usage".into(),
        interval: "daily".into(),
        next_run: "tomorrow".into(),
        last_run: Some("yesterday".into()),
    }];
    let out = render_schedules(&s);
    assert!(out.contains("disk-usage"));
    assert!(out.contains("last: yesterday"));
}

#[test]
fn render_runs_shows_status_and_preview() {
    let runs = vec![TaskRun {
        id: "1".into(),
        skill_name: "disk-usage".into(),
        status: "success".into(),
        output: "line one\nline two".into(),
        started_at: "t0".into(),
        finished_at: "t1".into(),
    }];
    let out = render_runs(&runs);
    assert!(out.contains("success"));
    assert!(out.contains("line one"));
    assert!(!out.contains("line two"));
}

#[test]
fn render_config_entries_masks_api_key() {
    let entries = vec![("mimir.api_key".to_string(), "abcdefgh1234".to_string())];
    let out = render_config_entries(&entries);
    assert!(out.contains("abcd…1234"));
    assert!(!out.contains("abcdefgh1234"));
}

#[test]
fn render_config_entries_short_api_key_is_starred() {
    let entries = vec![("mimir.api_key".to_string(), "short".to_string())];
    let out = render_config_entries(&entries);
    assert!(out.contains("****"));
}

#[test]
fn render_config_value_masks_api_key() {
    assert_eq!(render_config_value("mimir.api_key", "abcdefgh1234"), "abcd…1234\n");
    assert_eq!(render_config_value("mimir.model", "gpt-4o"), "gpt-4o\n");
}

#[test]
fn render_memory_list_flags_reflection_source() {
    let memories = vec![Memory {
        id: "mem-0001".into(),
        category: "fact".into(),
        content: "runs Ubuntu".into(),
        created_at: "now".into(),
        updated_at: "now".into(),
        strength: 3,
        last_seen: None,
        source: "reflection".into(),
    }];
    let out = render_memory_list(&memories);
    assert!(out.contains("runs Ubuntu"));
    assert!(out.contains("reflection"));
    assert!(out.contains("strength 3"));
}

#[test]
fn render_memory_search_empty() {
    assert!(render_memory_search(&[]).contains("No matching memories"));
}

#[test]
fn render_memory_info_lists_all_fields() {
    let out = render_memory_info("id1", "regin", "host1", "3", 42, "2026-01-01");
    assert!(out.contains("id1"));
    assert!(out.contains("host1"));
    assert!(out.contains("42"));
}

#[test]
fn render_reflect_stats_summarises_counts() {
    let out = render_reflect_stats(10, 3, 2, 1);
    assert!(out.contains("10 episodes"));
    assert!(out.contains("3 reinforced"));
    assert!(out.contains("2 new"));
    assert!(out.contains("1 decayed"));
}

#[test]
fn render_task_created_notes_shadowing() {
    let out = render_task_created("disk-usage", "/path/skill.md", true);
    assert!(out.contains("Created skill 'disk-usage'"));
    assert!(out.contains("shadows a system skill"));
    let out2 = render_task_created("disk-usage", "/path/skill.md", false);
    assert!(!out2.contains("shadows"));
}

#[test]
fn render_context_show_no_repo_no_content() {
    let out = render_context_show(None, None);
    assert!(out.contains("no repo resolved"));
    assert!(out.contains("no context stored"));
}

#[test]
fn render_context_show_with_repo_and_content() {
    let out = render_context_show(Some("/repo"), Some("notes"));
    assert!(out.contains("repo: /repo"));
    assert!(out.contains("notes"));
}

#[test]
fn render_incidents_includes_workaround_and_resolution() {
    let mut i = incident("blocked");
    i.workaround = Some("restarted service".into());
    let out = render_incidents(&[i]);
    assert!(out.contains("blocked"));
    assert!(out.contains("restarted service"));

    let mut i2 = incident("resolved");
    i2.resolution = Some("cleared temp files".into());
    let out2 = render_incidents(&[i2]);
    assert!(out2.contains("cleared temp files"));
}

#[test]
fn render_incidents_empty() {
    assert_eq!(render_incidents(&[]), "No incidents.\n");
}

#[test]
fn render_changes_shows_linkage_and_approval() {
    let c = Change {
        id: "change-0001".into(),
        title: "bump disk".into(),
        description: "".into(),
        status: "applied".into(),
        incident_id: Some("incident-0001".into()),
        problem_id: None,
        before: Some("80%".into()),
        after: Some("40%".into()),
        approved_by: Some("rene".into()),
        approved_at: Some("now".into()),
        created_at: "now".into(),
        applied_at: Some("now".into()),
    };
    let out = render_changes(&[c]);
    assert!(out.contains("incident: incident"));
    assert!(out.contains("80% -> 40%"));
    assert!(out.contains("approved by rene"));
}

#[test]
fn render_problems_shows_root_cause() {
    let p = Problem {
        id: "problem-0001".into(),
        title: "recurring disk full".into(),
        description: "".into(),
        status: "known_error".into(),
        root_cause: Some("log rotation misconfigured".into()),
        created_at: "now".into(),
        updated_at: "now".into(),
        closed_at: None,
    };
    let out = render_problems(&[p]);
    assert!(out.contains("log rotation misconfigured"));
}

#[test]
fn render_hypotheses_lists_text_and_status() {
    let h = ProblemHypothesis {
        id: "hyp-0001".into(),
        problem_id: "problem-0001".into(),
        text: "cron misfires".into(),
        status: "validating".into(),
        created_at: "now".into(),
        updated_at: "now".into(),
    };
    let out = render_hypotheses(&[h]);
    assert!(out.contains("cron misfires"));
    assert!(out.contains("validating"));
}

#[test]
fn render_desired_list_flags_conflicts_and_recurrence() {
    let items = vec![DesiredInfo {
        domain: "disk".into(),
        source: DesiredSource::User,
        assertions: 2,
        recurrence_threshold: Some(3),
        conflicts: vec!["ambiguous free-space target".into()],
    }];
    let out = render_desired_list(&items);
    assert!(out.contains("2 assertion(s)"));
    assert!(out.contains("recurrence>=3"));
    assert!(out.contains("conflict: ambiguous"));
}

#[test]
fn render_mode_shows_last_reachable_never_when_unset() {
    let out = render_mode("standalone", false, None, 2);
    assert!(out.contains("standalone"));
    assert!(out.contains("never"));
    assert!(out.contains("consecutive failures: 2"));
}

#[test]
fn render_greeting_no_actions_is_just_health_line() {
    let g = Greeting {
        mode: "standalone".into(),
        open_incidents: 0,
        open_problems: 0,
        pending_changes: vec![],
        decision_problems: vec![],
        intent_escalations: vec![],
    };
    let out = render_greeting(&g);
    assert_eq!(out.trim_end(), g.health_line());
}

#[test]
fn render_filters_shows_domain_when_set() {
    let rules = vec![FilterRule {
        name: "known-noise".into(),
        contains: "connection reset".into(),
        domain: Some("network".into()),
        source: FilterSource::User,
    }];
    let out = render_filters(&rules);
    assert!(out.contains("domain: network"));
}

#[test]
fn render_audit_reports_findings_or_clean() {
    assert!(render_audit(&[], false, 0).contains("clean"));
    let findings = vec![Finding { area: "disk".into(), message: "usage rising".into() }];
    let out = render_audit(&findings, true, 1);
    assert!(out.contains("trimmed"));
    assert!(out.contains("usage rising"));
    assert!(out.contains("1 new problem"));
}

#[test]
fn render_checks_lists_domain_and_signature() {
    let checks = vec![DerivedCheck {
        id: "check-1".into(),
        domain: "disk".into(),
        description: "free space >= 10%".into(),
        signature: "disk.free_pct.gte.10".into(),
        status: "active".into(),
        created_at: "now".into(),
        demoted_at: None,
        demote_reason: None,
    }];
    let out = render_checks(&checks);
    assert!(out.contains("free space >= 10%"));
    assert!(out.contains("disk.free_pct.gte.10"));
}

#[test]
fn fmt_secs_buckets() {
    assert_eq!(fmt_secs(30), "30s");
    assert_eq!(fmt_secs(90), "1m");
    assert_eq!(fmt_secs(3661), "1h1m");
    assert_eq!(fmt_secs(90000), "1d1h");
}

#[test]
fn render_soul_values_list_shows_id_tradition_and_name() {
    let values = vec![ValueEntry {
        id: "integrity".into(),
        name: "Integrity".into(),
        description: "Never fabricate.".into(),
        tradition: "agent-operational".into(),
    }];
    let out = render_soul_values_list("1", &values);
    assert!(out.contains("v1"));
    assert!(out.contains("integrity"));
    assert!(out.contains("agent-operational"));
    assert!(out.contains("Integrity"));
}

#[test]
fn render_soul_value_detail_includes_description() {
    let v = ValueEntry {
        id: "prudence".into(),
        name: "Prudence".into(),
        description: "Practical wisdom.".into(),
        tradition: "cardinal".into(),
    };
    let out = render_soul_value_detail(&v);
    assert!(out.contains("Prudence"));
    assert!(out.contains("Practical wisdom."));
}

#[test]
fn render_soul_charter_shows_empty_core_hint() {
    let out = render_soul_charter(&[], &[], &[]);
    assert!(out.contains("seed it with"));
}

#[test]
fn render_soul_charter_lists_core_overlay_and_grounding() {
    let core = vec!["integrity".to_string()];
    let overlay = vec!["prudence".to_string()];
    let grounding = vec!["integrity".to_string(), "prudence".to_string()];
    let out = render_soul_charter(&core, &overlay, &grounding);
    assert!(out.contains("core charter (1)"));
    assert!(out.contains("persona overlay (1)"));
    assert!(out.contains("grounding"));
}

#[test]
fn render_soul_charter_proposal_shows_confirm_command() {
    let out = render_soul_charter_proposal("cfo", &["prudence".to_string(), "integrity".to_string()]);
    assert!(out.contains("role 'cfo'"));
    assert!(out.contains("regin soul charter set prudence integrity"));
}

#[test]
fn render_soul_charter_written_reports_added_or_nothing_new() {
    assert!(render_soul_charter_written(&[]).contains("no new values"));
    assert!(render_soul_charter_written(&["integrity".to_string()]).contains("integrity"));
}

fn sample_principle(status: &str) -> Principle {
    Principle {
        id: "11111111-2222-3333-4444-555555555555".into(),
        content: "recurring failures — be more careful".into(),
        status: status.into(),
        source: "reflection".into(),
        evidence: vec!["ep1".into(), "ep2".into()],
        created_at: "2026-01-01T00:00:00Z".into(),
        updated_at: "2026-01-01T00:00:00Z".into(),
    }
}

#[test]
fn render_soul_principles_empty_says_so() {
    assert!(render_soul_principles(&[]).contains("no principles"));
}

#[test]
fn render_soul_principles_shows_status_source_content_and_evidence_count() {
    let out = render_soul_principles(&[sample_principle("candidate")]);
    assert!(out.contains("candidate"));
    assert!(out.contains("reflection"));
    assert!(out.contains("recurring failures"));
    assert!(out.contains("2 deliberation"));
}

#[test]
fn render_soul_principle_ratified_reports_active() {
    assert!(render_soul_principle_ratified(&sample_principle("active")).contains("active"));
}

#[test]
fn render_soul_principle_rejected_reports_retired() {
    assert!(render_soul_principle_rejected(&sample_principle("retired")).contains("retired"));
}

#[test]
fn sid_truncates_to_eight_chars() {
    assert_eq!(sid("abcdefghijkl"), "abcdefgh");
    assert_eq!(sid("short"), "short");
}

#[test]
fn apply_chat_event_accumulates_tokens_and_captures_conversation_id() {
    let mut full = String::new();
    let mut conv_id = String::new();
    apply_chat_event(&Response::StreamChunk { token: "hel".into() }, &mut full, &mut conv_id);
    apply_chat_event(&Response::StreamChunk { token: "lo".into() }, &mut full, &mut conv_id);
    apply_chat_event(&Response::ToolCallEvent { name: "bash".into(), arguments: "{}".into() }, &mut full, &mut conv_id);
    apply_chat_event(&Response::StreamDone { conversation_id: "c1".into() }, &mut full, &mut conv_id);
    assert_eq!(full, "hello");
    assert_eq!(conv_id, "c1");
}

#[test]
fn render_tool_call_truncates_long_arguments() {
    let args = "x".repeat(200);
    let out = render_tool_call("bash", &args);
    assert!(out.starts_with("▶ bash "));
    assert_eq!(out.len(), "▶ bash ".len() + 120);
}

#[test]
fn render_tool_result_shows_icon_and_preview_lines() {
    let ok = render_tool_result("bash", true, "line1\nline2\nline3", 2);
    assert!(ok.starts_with("  ✓ bash"));
    assert!(ok.contains("line1"));
    assert!(ok.contains("line2"));
    assert!(!ok.contains("line3"));

    let failed = render_tool_result("bash", false, "", 2);
    assert_eq!(failed, "  ✗ bash");
}

#[test]
fn render_task_result_includes_status_and_output() {
    let run = TaskRun {
        id: "1".into(),
        skill_name: "disk-usage".into(),
        status: "success".into(),
        output: "42% used".into(),
        started_at: "t0".into(),
        finished_at: "t1".into(),
    };
    let out = render_task_result(&run);
    assert!(out.contains("Status: success"));
    assert!(out.contains("42% used"));
}
