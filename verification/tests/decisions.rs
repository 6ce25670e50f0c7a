use regin::decision::{
    deliberation_step, derive_principle_candidates, extract_json_object, parse_mode, parse_raw_verdict, pinned_mode,
    resolve_verdict,
    select_mode, soul_user_prompt, ContemplatedAction, DefaultRiskClassifier, DeliberateOutcome,
    DeliberateStep, DeliberationSummary, Disposition, Mode, Outcome, PassthroughSoulGate, Plan, RawSoulVerdict,
    RiskClassifier, SoulVerdict,
};
use regin::guardrail::{check_tool_call, red_line_violation, Decision, DecisionLayer, FunctionCall, ToolCall};
use regin::persona::{allows, Persona};
use regin::types::ValueEntry;

// --- mode selection ---------------------------------------------------------

#[test]
fn irreversible_destructive_or_outward_actions_go_deliberate() {
    let c = DefaultRiskClassifier;
    assert_eq!(c.classify(&ContemplatedAction { reversible: false, ..Default::default() }), Mode::Deliberate);
    assert_eq!(c.classify(&ContemplatedAction { destructive: true, ..Default::default() }), Mode::Deliberate);
    assert_eq!(c.classify(&ContemplatedAction { outward_facing: true, ..Default::default() }), Mode::Deliberate);
}

#[test]
fn reversible_read_only_actions_stay_in_act_mode() {
    let c = DefaultRiskClassifier;
    let action = ContemplatedAction { reversible: true, destructive: false, outward_facing: false, urgent: false };
    assert_eq!(c.classify(&action), Mode::Act);
}

#[test]
fn urgency_overrides_an_otherwise_risky_classification() {
    let c = DefaultRiskClassifier;
    let action = ContemplatedAction { reversible: false, destructive: true, outward_facing: true, urgent: true };
    assert_eq!(c.classify(&action), Mode::Act);
}

/// A classifier that ignores the action and always returns a canned mode.
struct FakeClassifier(Mode);
impl RiskClassifier for FakeClassifier {
    fn classification(&self, _action: ContemplatedAction) -> Mode {
        self.0
    }

    fn classify(&self, _action: &ContemplatedAction) -> Mode {
        self.0
    }
}

fn persona(role: &str, default_mode: Option<&str>) -> Persona {
    Persona { role: role.into(), tools: None, default_mode: default_mode.map(|s| s.to_string()) }
}

#[test]
fn select_mode_uses_the_classifier_when_no_persona_override() {
    let risky = ContemplatedAction { destructive: true, ..Default::default() };
    assert_eq!(select_mode(&risky, &FakeClassifier(Mode::Act), None), Mode::Act);
    assert_eq!(select_mode(&risky, &FakeClassifier(Mode::Deliberate), None), Mode::Deliberate);
}

#[test]
fn persona_default_mode_overrides_the_classifier() {
    let safe = ContemplatedAction::default();
    let p = persona("auditor", Some("deliberate"));
    assert_eq!(select_mode(&safe, &FakeClassifier(Mode::Act), Some(&p)), Mode::Deliberate);

    let p2 = persona("firefighter", Some("act"));
    let risky = ContemplatedAction { destructive: true, ..Default::default() };
    assert_eq!(select_mode(&risky, &FakeClassifier(Mode::Deliberate), Some(&p2)), Mode::Act);
}

#[test]
fn persona_without_an_override_falls_back_to_the_classifier() {
    let p = persona("ops", None);
    let safe = ContemplatedAction::default();
    assert_eq!(select_mode(&safe, &FakeClassifier(Mode::Deliberate), Some(&p)), Mode::Deliberate);
}

#[test]
fn act_mode_selection_never_invokes_the_deliberate_pipeline() {
    let safe = ContemplatedAction { reversible: true, ..Default::default() };
    assert_eq!(select_mode(&safe, &DefaultRiskClassifier, None), Mode::Act);
}

#[test]
fn an_unknown_persona_mode_falls_back_to_the_classifier() {
    let p = persona("ops", Some("sometimes"));
    assert_eq!(parse_mode("sometimes"), None);
    assert_eq!(parse_mode("act"), Some(Mode::Act));
    assert_eq!(parse_mode("deliberate"), Some(Mode::Deliberate));
    assert_eq!(select_mode(&ContemplatedAction::default(), &FakeClassifier(Mode::Act), Some(&p)), Mode::Act);
    assert_eq!(pinned_mode(Some(&p)), None);
    assert_eq!(pinned_mode(Some(&persona("auditor", Some("deliberate")))), Some(Mode::Deliberate));
    assert_eq!(pinned_mode(None), None);
}

// --- threshold resolution and the deliberation step --------------------------

#[test]
fn the_verdict_word_must_be_exact() {
    assert_eq!(parse_raw_verdict("approve"), Some(RawSoulVerdict::Approve));
    assert_eq!(parse_raw_verdict("revise"), Some(RawSoulVerdict::Revise));
    assert_eq!(parse_raw_verdict("veto"), Some(RawSoulVerdict::Veto));
    assert_eq!(parse_raw_verdict("Approve"), None);
    assert_eq!(parse_raw_verdict("maybe"), None);
}

#[test]
fn approve_at_or_above_threshold_resolves_to_approve() {
    assert_eq!(resolve_verdict(RawSoulVerdict::Approve, true), SoulVerdict::Approve);
}

#[test]
fn approve_below_threshold_resolves_to_revise() {
    assert_eq!(resolve_verdict(RawSoulVerdict::Approve, false), SoulVerdict::Revise);
    assert_eq!(resolve_verdict(RawSoulVerdict::Revise, true), SoulVerdict::Revise);
}

#[test]
fn veto_fails_the_gate_regardless_of_confidence() {
    assert_eq!(resolve_verdict(RawSoulVerdict::Veto, true), SoulVerdict::Veto);
    assert_eq!(resolve_verdict(RawSoulVerdict::Veto, false), SoulVerdict::Veto);
}

#[test]
fn passthrough_soul_gate_always_approves() {
    let (v, reaction) = PassthroughSoulGate.vote();
    assert_eq!(v, SoulVerdict::Approve);
    assert_eq!(reaction, "stub Soul gate: auto-approved");
}

#[test]
fn approval_finishes_by_executing() {
    match deliberation_step(0, 3, SoulVerdict::Approve, "fine") {
        DeliberateStep::Finish { disposition, outcome } => {
            assert_eq!(disposition, Disposition::Executed);
            assert_eq!(outcome, DeliberateOutcome::Executed);
        }
        DeliberateStep::Replan { .. } => panic!("approval must finish"),
    }
}

#[test]
fn veto_denies_with_the_souls_reaction() {
    match deliberation_step(0, 3, SoulVerdict::Veto, "violates integrity") {
        DeliberateStep::Finish { disposition, outcome } => {
            assert_eq!(disposition, Disposition::Denied);
            assert_eq!(outcome, DeliberateOutcome::DeniedAndEscalated { reason: "violates integrity".into() });
        }
        DeliberateStep::Replan { .. } => panic!("veto must finish"),
    }
}

#[test]
fn revise_feeds_the_reaction_back_until_the_last_round() {
    match deliberation_step(0, 3, SoulVerdict::Revise, "add a backout") {
        DeliberateStep::Replan { feedback } => assert_eq!(feedback, "add a backout"),
        DeliberateStep::Finish { .. } => panic!("revise before the last round replans"),
    }
    match deliberation_step(2, 3, SoulVerdict::Revise, "still no") {
        DeliberateStep::Finish { disposition, outcome } => {
            assert_eq!(disposition, Disposition::Escalated);
            assert_eq!(
                outcome,
                DeliberateOutcome::DeniedAndEscalated { reason: "max_rounds (3) reached without Soul approval".into() }
            );
        }
        DeliberateStep::Replan { .. } => panic!("the last round escalates"),
    }
}

#[test]
fn zero_max_rounds_still_allows_one_round() {
    match deliberation_step(0, 0, SoulVerdict::Revise, "no") {
        DeliberateStep::Finish { disposition, outcome } => {
            assert_eq!(disposition, Disposition::Escalated);
            assert_eq!(
                outcome,
                DeliberateOutcome::DeniedAndEscalated { reason: "max_rounds (0) reached without Soul approval".into() }
            );
        }
        DeliberateStep::Replan { .. } => panic!("one round only"),
    }
}

#[test]
fn a_scripted_deliberation_finishes_exactly_once() {
    // revise, revise, approve over 3 rounds: two replans, then one execution.
    let votes = [SoulVerdict::Revise, SoulVerdict::Revise, SoulVerdict::Approve];
    let mut finishes = 0;
    let mut executed = 0;
    for (round, v) in votes.iter().enumerate() {
        match deliberation_step(round as u32, 3, *v, "r") {
            DeliberateStep::Replan { .. } => {}
            DeliberateStep::Finish { disposition, .. } => {
                finishes += 1;
                if disposition == Disposition::Executed {
                    executed += 1;
                }
                break;
            }
        }
    }
    assert_eq!(finishes, 1);
    assert_eq!(executed, 1);
}

// --- the Soul's prompt and reply framing ------------------------------------

#[test]
fn tolerates_prose_wrapped_around_the_json_object() {
    let got = extract_json_object("Sure! Here you go: {\"verdict\": \"approve\"} hope that helps").unwrap();
    assert_eq!(got, "{\"verdict\": \"approve\"}");
}

#[test]
fn malformed_response_has_no_json_object() {
    assert_eq!(extract_json_object("I approve wholeheartedly"), None);
    assert_eq!(extract_json_object("} backwards {"), None);
}

fn catalog() -> Vec<ValueEntry> {
    vec![ValueEntry {
        id: "integrity".into(),
        name: "Integrity".into(),
        description: "act honestly".into(),
        tradition: "virtue".into(),
    }]
}

#[test]
fn soul_prompt_renders_a_free_text_grounding_entry_alongside_a_catalog_id() {
    let grounding = vec!["integrity".to_string(), "a ratified free-text principle".to_string()];
    let prompt = soul_user_prompt("intent", &grounding, &catalog());
    assert!(prompt.contains("integrity"), "catalog id still resolves via the value catalog");
    assert!(prompt.contains("a ratified free-text principle"), "free text renders as-is");
}

#[test]
fn soul_prompt_carries_only_the_intent_and_the_values() {
    let plan = Plan {
        id: "plan-1".into(),
        intent_summary: "restart the web service to clear a memory leak".into(),
        steps: vec!["SECRET_STEP: sudo systemctl restart webapp".into()],
        intended_tool_calls: vec![call("bash", bash("systemctl restart webapp"))],
    };
    let grounding = vec!["integrity".to_string(), "caution".to_string()];
    let prompt = soul_user_prompt(&plan.intent_summary, &grounding, &catalog());
    assert!(prompt.contains("restart the web service to clear a memory leak"));
    assert!(prompt.contains("Integrity") && prompt.contains("caution"));
    assert!(!prompt.contains("SECRET_STEP"));
    assert!(!prompt.contains("systemctl restart webapp"));
    assert!(!prompt.contains("bash"));
}

#[test]
fn soul_prompt_has_the_exact_layout() {
    let grounding = vec!["integrity".to_string(), "be careful".to_string()];
    let prompt = soul_user_prompt("restart the web service", &grounding, &catalog());
    assert_eq!(
        prompt,
        "Plan intent:\nrestart the web service\n\nValues grounding:\n- Integrity (integrity): act honestly\n- be careful\n\nReturn your verdict as JSON."
    );
}

// --- principle derivation -----------------------------------------------------

fn summary(disposition: Disposition, outcome: Option<Outcome>) -> DeliberationSummary {
    DeliberationSummary { disposition, outcome }
}

#[test]
fn derive_principle_candidates_never_fires_from_a_single_instance() {
    let records = vec![("e1".to_string(), summary(Disposition::Executed, Some(Outcome::Failure)))];
    assert!(derive_principle_candidates(&records, 3).is_empty());
}

#[test]
fn derive_principle_candidates_fires_once_recurrence_threshold_is_met() {
    let records: Vec<_> =
        (0..3).map(|i| (format!("e{i}"), summary(Disposition::Executed, Some(Outcome::Failure)))).collect();
    let candidates = derive_principle_candidates(&records, 3);
    assert_eq!(candidates.len(), 1);
    assert_eq!(candidates[0].evidence.len(), 3);
    assert!(candidates[0].evidence.contains(&"e0".to_string()));
}

#[test]
fn derive_principle_candidates_ignores_denied_escalated_and_success() {
    let mut records = Vec::new();
    for i in 0..5 {
        records.push((format!("veto{i}"), summary(Disposition::Denied, None)));
        records.push((format!("esc{i}"), summary(Disposition::Escalated, None)));
        records.push((format!("ok{i}"), summary(Disposition::Executed, Some(Outcome::Success))));
    }
    assert!(derive_principle_candidates(&records, 3).is_empty());
}

#[test]
fn derive_principle_candidates_groups_failure_and_rollback_separately() {
    let mut records = Vec::new();
    for i in 0..3 {
        records.push((format!("f{i}"), summary(Disposition::Executed, Some(Outcome::Failure))));
    }
    for i in 0..2 {
        records.push((format!("r{i}"), summary(Disposition::Executed, Some(Outcome::RolledBack))));
    }
    let candidates = derive_principle_candidates(&records, 3);
    assert_eq!(candidates.len(), 1);
    assert!(candidates[0].content.to_lowercase().contains("failure"));
}

#[test]
fn candidate_texts_state_the_recurrence_count() {
    let records: Vec<_> =
        (0..2).map(|i| (format!("r{i}"), summary(Disposition::Executed, Some(Outcome::RolledBack)))).collect();
    let candidates = derive_principle_candidates(&records, 2);
    assert_eq!(candidates.len(), 1);
    assert!(candidates[0].content.starts_with("2 executed deliberations have needed a rollback"));
    assert_eq!(candidates[0].evidence, vec!["r0".to_string(), "r1".to_string()]);
}

// --- guardrail ------------------------------------------------------------------

fn bash(cmd: &str) -> String {
    format!(r#"{{"command":{}}}"#, serde_json::to_string(cmd).unwrap())
}

fn path_args(path: &str) -> String {
    format!(r#"{{"path":{}}}"#, serde_json::to_string(path).unwrap())
}

fn rl(cmd: &str) -> Option<String> {
    red_line_violation("bash", &bash(cmd))
}

#[test]
fn catastrophic_fs_is_blocked() {
    assert!(rl("rm -rf /").is_some());
    assert!(rl("rm -rf /*").is_some());
    assert!(rl("rm -rf ~").is_some());
    assert!(rl("dd if=/dev/zero of=/dev/sda").is_some());
    assert!(rl("mkfs.ext4 /dev/sdb1").is_some());
    assert!(rl("wipefs -a /dev/sda").is_some());
    assert!(rl("sgdisk --zap-all /dev/sda").is_some());
    assert!(rl("echo x > /dev/sda").is_some());
}

#[test]
fn ordinary_remediation_is_allowed() {
    assert!(rl("rm -rf /tmp/cache/*").is_none());
    assert!(rl("rm -rf /var/lib/myapp/tmp").is_none());
    assert!(rl("systemctl restart nginx").is_none());
    assert!(rl("apt-get clean").is_none());
    assert!(rl("truncate -s 0 /var/log/app.log").is_none());
    assert!(rl(": > /var/log/syslog").is_none());
    assert!(rl("journalctl --vacuum-size=100M").is_none());
    assert!(rl("dd if=/dev/zero of=/tmp/testfile bs=1M count=10").is_none());
}

#[test]
fn governance_and_substrate_protected() {
    assert!(rl("systemctl stop regind").is_some());
    assert!(rl("systemctl disable regind.service").is_some());
    assert!(rl("pkill regind").is_some());
    assert!(rl("rm -f ~/.local/share/regin/regin.db").is_some());
    assert!(rl("rm -rf /var/backups/nightly").is_some());
    assert!(rl("rm -rf /home/u/.snapshots").is_some());
    assert!(rl("systemctl restart regind").is_none());
}

#[test]
fn firewall_teardown_blocked() {
    assert!(rl("ufw disable").is_some());
    assert!(rl("systemctl stop firewalld").is_some());
    assert!(rl("iptables -F").is_some());
    assert!(rl("nft flush ruleset").is_some());
    assert!(rl("iptables -A INPUT -p tcp --dport 22 -j ACCEPT").is_none());
    assert!(rl("ufw allow 22").is_none());
}

#[test]
fn root_account_and_auth_files_protected() {
    assert!(rl("useradd -u 0 -o eviltwin").is_some());
    assert!(rl("useradd --uid=0 x").is_some());
    assert!(rl("echo bad >> /etc/shadow").is_some());
    assert!(red_line_violation("write_file", &path_args("/etc/shadow")).is_some());
    assert!(red_line_violation("write_file", &path_args("/etc/sudoers.d/x")).is_some());
    assert!(red_line_violation("edit_file", &path_args("/home/u/.local/share/regin/regin.db")).is_some());
    assert!(red_line_violation("write_file", &path_args("/tmp/out.txt")).is_none());
    assert!(rl("useradd normaluser").is_none());
}

#[test]
fn red_line_hidden_in_a_chain_is_caught() {
    assert!(rl("cd /tmp && rm -rf / ; echo done").is_some());
    assert!(rl("ls | systemctl stop regind").is_some());
}

fn call(name: &str, args: String) -> ToolCall {
    ToolCall { id: "1".into(), call_type: "function".into(), function: FunctionCall { name: name.into(), arguments: args } }
}

#[test]
fn red_line_beats_ceiling_and_names_the_layer() {
    let p = Persona { role: "operator".into(), tools: Some(vec!["read_file".into()]), default_mode: None };

    let d = check_tool_call(&call("bash", bash("rm -rf /")), Some(&p));
    match &d {
        Decision::Deny { layer, .. } => assert_eq!(*layer, DecisionLayer::RedLine),
        _ => panic!("expected red-line denial"),
    }
    assert!(d.audit().unwrap().starts_with("[red-line]"));

    let d = check_tool_call(&call("bash", bash("ls /tmp")), Some(&p));
    match &d {
        Decision::Deny { layer, reason } => {
            assert_eq!(*layer, DecisionLayer::Ceiling);
            assert!(reason.contains("operator"));
        }
        _ => panic!("expected ceiling denial"),
    }

    assert!(check_tool_call(&call("read_file", path_args("/tmp/x")), Some(&p)).is_allowed());
}

#[test]
fn unscoped_persona_still_hits_red_lines() {
    let d = check_tool_call(&call("bash", bash("mkfs.ext4 /dev/sdb")), None);
    assert!(!d.is_allowed());
    assert_eq!(check_tool_call(&call("bash", bash("ls")), None), Decision::Allow);
}

#[test]
fn ceiling_denial_reason_is_exact() {
    let p = Persona { role: "auditor".into(), tools: Some(vec![]), default_mode: None };
    let d = check_tool_call(&call("bash", bash("ls")), Some(&p));
    assert_eq!(
        d.audit().unwrap(),
        "[ceiling] tool 'bash' is outside the 'auditor' role's capability ceiling"
    );
    assert_eq!(Decision::Allow.audit(), None);
}

#[test]
fn missing_or_non_string_arguments_cross_no_red_line() {
    assert_eq!(red_line_violation("bash", "{}"), None);
    assert_eq!(red_line_violation("bash", "{\"command\": 5}"), None);
    assert_eq!(red_line_violation("bash", "not json"), None);
    assert_eq!(red_line_violation("read_file", &path_args("/etc/shadow")), None);
}

#[test]
fn a_persona_scopes_tools_and_no_persona_allows_all() {
    let p = Persona { role: "ops".into(), tools: Some(vec!["bash".into()]), default_mode: None };
    assert!(allows(Some(&p), "bash"));
    assert!(!allows(Some(&p), "write_file"));
    assert!(allows(None, "write_file"));
    let unscoped = Persona { role: "ops".into(), tools: None, default_mode: None };
    assert!(allows(Some(&unscoped), "write_file"));
}
