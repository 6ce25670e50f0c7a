use std::path::PathBuf;

use regin::approval::{build_request, correlation_ref as approval_ref, verdict_summary, ApprovalVerdict};
use regin::audit::{adaptive_cadence_days, audit_coverage, findings_to_file, run_audit, AuditReport, Finding};
use regin::bus::BusMessage;
use regin::chair::{collect_reports, compile, is_structured_minutes, Report};
use regin::config::{
    regind_service_unit, system_desired_dir, system_filters_dir, system_operator_skills_dir, system_plugins_dir,
    system_skills_dir,
};
use regin::context::{build_system_prompt, OPERATOR_DIRECTIVE};
use regin::control_loop::{compute_rag, Rag, ScheduleReport};
use regin::escalation::{build, correlation_ref, EscalationKind};
use regin::types::{Change, Memory};

fn a_memory(category: &str, content: &str) -> Memory {
    Memory {
        id: "m1".into(),
        category: category.into(),
        content: content.into(),
        created_at: "2026-01-01T00:00:00Z".into(),
        updated_at: "2026-01-01T00:00:00Z".into(),
        strength: 1,
        last_seen: None,
        source: "human".into(),
    }
}

fn msg(from: &str, body: &str) -> BusMessage {
    BusMessage {
        id: 1,
        sender: from.into(),
        recipient: "ceo@hq".into(),
        kind: "unstructured".into(),
        body: body.into(),
        ref_id: None,
        channel: None,
    }
}

fn feasible() -> ScheduleReport {
    ScheduleReport { feasible: true, issues: vec![] }
}

// --- audit ------------------------------------------------------------------

#[test]
fn coverage_gaps_both_directions() {
    let skills = vec!["disk".to_string(), "extra".to_string()];
    let desired = vec!["disk".to_string(), "lonely".to_string()];
    let f = audit_coverage(&skills, &desired);
    assert!(f.iter().any(|f| f.message.contains("`lonely`") && f.message.contains("no operator skill")));
    assert!(f.iter().any(|f| f.message.contains("`extra`") && f.message.contains("no to-be-state")));
    // fully covered -> none
    assert!(audit_coverage(&["disk".into()], &["disk".into()]).is_empty());
}

#[test]
fn cadence_is_adaptive() {
    assert_eq!(adaptive_cadence_days(true), 7);
    assert_eq!(adaptive_cadence_days(false), 30);
}

#[test]
fn coverage_findings_name_the_exact_gap() {
    let f = audit_coverage(&["extra".to_string()], &["lonely".to_string()]);
    assert_eq!(f.len(), 2);
    assert_eq!(f[0].area, "coverage");
    assert_eq!(f[0].message, "domain `lonely` has a to-be-state but no operator skill monitoring it");
    assert_eq!(f[1].message, "operator skill `extra` has no to-be-state to judge against");
}

fn reliability_finding() -> Finding {
    Finding { area: "reliability".into(), message: "incident-resolution rate 25% is below the 95% floor".into() }
}

#[test]
fn over_budget_trims_coverage_but_keeps_kpis() {
    let skills = vec!["a".to_string()];
    let desired: Vec<String> = vec![];
    let report = run_audit(vec![reliability_finding()], &skills, &desired, true);
    assert!(report.trimmed);
    assert!(report.findings.iter().all(|f| f.area != "coverage"), "coverage walk skipped under budget");
    assert!(report.findings.iter().any(|f| f.area == "reliability"), "cheap KPI review still runs");
}

#[test]
fn a_full_sweep_appends_coverage_after_kpis() {
    let report = run_audit(vec![reliability_finding()], &["a".to_string()], &[], false);
    assert!(!report.trimmed);
    assert_eq!(report.findings.len(), 2);
    assert_eq!(report.findings[0].area, "reliability");
    assert_eq!(report.findings[1].message, "operator skill `a` has no to-be-state to judge against");
    assert!(run_audit(vec![], &[], &[], false).is_clean());
}

#[test]
fn filing_findings_is_idempotent_by_title() {
    let report = AuditReport {
        findings: vec![Finding {
            area: "coverage".into(),
            message: "domain `x` has a to-be-state but no operator skill monitoring it".into(),
        }],
        trimmed: false,
    };
    let titles = findings_to_file(&report.findings, &[]);
    assert_eq!(titles, vec!["self-audit [coverage]: domain `x` has a to-be-state but no operator skill monitoring it".to_string()]);
    assert!(findings_to_file(&report.findings, &titles).is_empty(), "same finding not re-opened");
}

// --- chair ------------------------------------------------------------------

#[test]
fn collects_reports_from_free_text_and_structured() {
    let inbox = vec![
        msg("cfo@hq", "budget on track"),
        BusMessage { kind: "structured".into(), body: r#"{"kind":"report","body":"release green"}"#.into(), ..msg("cto@hq", "") },
        msg("cao@hq", "   "),
    ];
    let reports = collect_reports(&inbox);
    assert_eq!(reports.len(), 2);
    assert_eq!(reports[0].from, "cfo@hq");
    assert_eq!(reports[1].body, "release green");
}

#[test]
fn compiles_minutes_with_decisions_and_actions() {
    let agenda = vec!["incidents".to_string(), "delivery".to_string()];
    let reports = vec![
        Report { from: "cto@hq".into(), body: "all green\nACTION cto@hq: spike retry knob".into() },
        Report { from: "cfo@hq".into(), body: "ACTION cfo@hq!: approve $5k spend".into() },
    ];
    let m = compile(&agenda, &reports, 3);
    assert!(m.decisions.contains(&"incidents: reviewed".to_string()));
    assert!(m.decisions.iter().any(|d| d.contains("open ITIL items carried: 3")));
    assert_eq!(m.action_items.len(), 2);
    assert_eq!(m.action_items[0].assignee, "cto@hq");
    assert!(!m.action_items[0].needs_owner_approval);
    assert_eq!(m.action_items[1].assignee, "cfo@hq");
    assert!(m.action_items[1].needs_owner_approval);
}

#[test]
fn compile_trims_descriptions_and_skips_blank_assignees() {
    let reports = vec![Report { from: "x".into(), body: "  ACTION  ops@hq :  rotate keys  \nACTION : nobody\nACTION no colon here".into() }];
    let m = compile(&[], &reports, 0);
    assert_eq!(m.decisions, vec!["open ITIL items carried: 0".to_string()]);
    assert_eq!(m.action_items.len(), 1);
    assert_eq!(m.action_items[0].assignee, "ops@hq");
    assert_eq!(m.action_items[0].description, "rotate keys");
}

#[test]
fn structured_minutes_are_recognised() {
    let mut m = msg("ceo@hq", r#"{"kind":"minutes","meeting":"board"}"#);
    assert!(!is_structured_minutes(&m), "unstructured kind");
    m.kind = "structured".into();
    assert!(is_structured_minutes(&m));
    m.body = r#"{"kind":"report"}"#.into();
    assert!(!is_structured_minutes(&m));
    m.body = "not json".into();
    assert!(!is_structured_minutes(&m));
}

// --- config -----------------------------------------------------------------

#[test]
fn regind_service_unit_embeds_the_binary_path_and_key_directives() {
    let unit = regind_service_unit("/usr/bin/regind");
    assert!(unit.contains("ExecStart=/usr/bin/regind"));
    assert!(unit.contains("[Unit]"));
    assert!(unit.contains("[Service]"));
    assert!(unit.contains("[Install]"));
    assert!(unit.contains("Restart=on-failure"));
    assert!(unit.contains("WantedBy=default.target"));
}

#[test]
fn system_dirs_are_scoped_under_usr_share_regin() {
    assert_eq!(system_skills_dir(), PathBuf::from("/usr/share/regin/skills"));
    assert_eq!(system_desired_dir(), PathBuf::from("/usr/share/regin/desired"));
    assert_eq!(system_filters_dir(), PathBuf::from("/usr/share/regin/filters"));
    assert_eq!(system_operator_skills_dir(), PathBuf::from("/usr/share/regin/operator-skills"));
    assert_eq!(system_plugins_dir(), PathBuf::from("/usr/share/regin/plugins"));
}

#[test]
fn service_unit_is_exact() {
    assert_eq!(
        regind_service_unit("/bin/regind"),
        "[Unit]\nDescription=Regin Monitoring Daemon\nAfter=default.target\n\n[Service]\nType=exec\nExecStart=/bin/regind\nRestart=on-failure\nRestartSec=5\nEnvironment=RUST_LOG=info\n\n[Install]\nWantedBy=default.target\n"
    );
}

// --- context ----------------------------------------------------------------

#[test]
fn includes_the_operator_directive_with_no_repo_context_or_memories() {
    let prompt = build_system_prompt(None, None, &[]).unwrap();
    assert!(prompt.contains(OPERATOR_DIRECTIVE));
    assert!(!prompt.contains("## repo context"));
    assert!(!prompt.contains("## Memories"));
}

#[test]
fn includes_a_non_empty_repo_context_section() {
    let prompt = build_system_prompt(None, Some("do X before Y"), &[]).unwrap();
    assert!(prompt.contains("## repo context"));
    assert!(prompt.contains("do X before Y"));
}

#[test]
fn excludes_a_whitespace_only_repo_context() {
    let prompt = build_system_prompt(None, Some("   \n  "), &[]).unwrap();
    assert!(!prompt.contains("## repo context"));
}

#[test]
fn includes_a_memories_section_with_category_and_content() {
    let mems = vec![a_memory("fact", "the sky is blue")];
    let prompt = build_system_prompt(None, None, &mems).unwrap();
    assert!(prompt.contains("## Memories"));
    assert!(prompt.contains("[fact] the sky is blue"));
    assert!(prompt.contains("regin memory save"));
}

#[test]
fn user_context_section_comes_first_and_blank_is_left_out() {
    let prompt = build_system_prompt(Some("always run tests before pushing"), Some("repo notes"), &[]).unwrap();
    assert_eq!(
        prompt,
        format!("{OPERATOR_DIRECTIVE}\n\n## user context\n\nalways run tests before pushing\n\n## repo context\n\nrepo notes")
    );
    let blank = build_system_prompt(Some("   \n  "), None, &[]).unwrap();
    assert!(!blank.contains("## user context"));
    assert_eq!(blank, OPERATOR_DIRECTIVE);
}

// --- control loop -----------------------------------------------------------

#[test]
fn compute_rag_is_green_when_feasible_and_nothing_to_recover() {
    assert_eq!(compute_rag(&feasible(), &[], false), Rag::Green);
}

#[test]
fn compute_rag_is_amber_when_feasible_but_recovered_this_round() {
    assert_eq!(compute_rag(&feasible(), &[], true), Rag::Amber);
}

#[test]
fn compute_rag_is_red_when_infeasible_regardless_of_recovery() {
    let report = ScheduleReport { feasible: false, issues: vec!["deadline missed".into()] };
    assert!(!report.feasible);
    assert_eq!(compute_rag(&report, &[], true), Rag::Red);
}

#[test]
fn compute_rag_is_red_when_a_task_is_still_failing() {
    assert_eq!(compute_rag(&feasible(), &["a".to_string()], false), Rag::Red);
}

// --- escalation / approval --------------------------------------------------

#[test]
fn kind_parses() {
    assert_eq!(EscalationKind::parse("bug").unwrap(), EscalationKind::Bug);
    assert_eq!(EscalationKind::parse("Feature").unwrap(), EscalationKind::Feat);
    assert!(EscalationKind::parse("epic").is_err());
}

#[test]
fn builds_a_tagged_payload_with_correlation_ref() {
    let e = build("P-3", "auth flakes", "root cause: token clock skew", EscalationKind::Bug, "cio@hq");
    assert_eq!(e.kind, "escalation");
    assert_eq!(e.ticket, "bug");
    assert_eq!(e.problem_id, "P-3");
    assert_eq!(e.reply_to, "cio@hq");
    assert_eq!(e.ref_id, "ESC-P-3");
    assert_eq!(correlation_ref("P-3"), "ESC-P-3");
}

#[test]
fn unknown_escalation_kind_is_named_in_the_error() {
    assert_eq!(EscalationKind::parse("  Epic ").unwrap_err(), "unknown escalation kind \"epic\" (use bug|feat)");
    assert_eq!(EscalationKind::Feat.as_str(), "feat");
}

fn staged_change() -> Change {
    Change {
        id: "chg-1".into(),
        title: "restart svc".into(),
        description: "bring it back".into(),
        status: "pending_approval".into(),
        incident_id: Some("inc-1".into()),
        problem_id: None,
        before: Some("snapshot s1".into()),
        after: None,
        approved_by: None,
        approved_at: None,
        created_at: "now".into(),
        applied_at: None,
    }
}

#[test]
fn builds_tagged_request_with_backout_and_ref() {
    let chg = staged_change();
    let req = build_request(&chg, "supervisor@hq");
    assert_eq!(req.kind, "approval_request");
    assert_eq!(req.change_id, chg.id);
    assert_eq!(req.backout.as_deref(), Some("snapshot s1"));
    assert_eq!(req.reply_to, "supervisor@hq");
    assert_eq!(req.ref_id, format!("APR-{}", chg.id));
    assert_eq!(req.incident_id.as_deref(), Some("inc-1"));
}

#[test]
fn approval_and_escalation_refs_never_collide() {
    assert_eq!(approval_ref("x"), "APR-x");
    assert_ne!(approval_ref("x"), correlation_ref("x"));
}

#[test]
fn verdict_summaries_name_the_approver() {
    let yes = ApprovalVerdict { change_id: "c".into(), approved: true, approved_by: "rene".into() };
    assert_eq!(verdict_summary(&yes), "change approved by rene and applied");
    let no = ApprovalVerdict { change_id: "c".into(), approved: false, approved_by: "rene".into() };
    assert_eq!(verdict_summary(&no), "change rejected by rene");
    assert!(regin::approval::awaiting_decision(&staged_change()));
}
