use cowclaw_swarm::gates::oracle_consult::OracleConsultGate;
use cowclaw_swarm::gates::plan_adversarial::adversarial_prompt;
use cowclaw_swarm::gates::scope_reduction::ScopeReductionGate;
use cowclaw_swarm::gates::security::SecurityGate;
use cowclaw_swarm::gates::verdict_json::{
    braces_in_order, oracle_reply_verdict, parse_gate_verdict, verdict_from_members,
};
use cowclaw_swarm::gates::{ChainResult, GateResult, GateVerdict, MockGate};
use cowclaw_swarm::oracle::{Oracle, OracleConfig};
use std::path::PathBuf;

fn run_chain(gates: &[MockGate], plan_id: &str) -> ChainResult {
    let mut chain = ChainResult::start();
    for g in gates {
        let verdict = g.run(plan_id);
        let go_on = chain.record(GateResult { gate_name: g.name().to_string(), verdict });
        if !go_on {
            break;
        }
    }
    chain
}

#[test]
fn gate_chain_blocks_on_fail() {
    let r = run_chain(
        &[
            MockGate::pass("plan_adversarial"),
            MockGate::fail("scope_reduction", "requirement X dropped"),
            MockGate::pass("security"),
        ],
        "plan-01",
    );
    assert_eq!(r.blocked_by, Some("scope_reduction".to_string()));
    assert_eq!(r.verdicts.len(), 2);
    assert!(!r.passed());
}

#[test]
fn gate_chain_passes_all_pass() {
    let r = run_chain(
        &[MockGate::pass("gate_a"), MockGate::warn("gate_b", "minor issue"), MockGate::pass("gate_c")],
        "plan-02",
    );
    assert!(r.blocked_by.is_none());
    assert_eq!(r.verdicts.len(), 3);
    assert!(r.passed());
}

#[test]
fn gate_chain_empty_passes() {
    let r = run_chain(&[], "plan-empty");
    assert!(r.passed());
    assert_eq!(r.verdicts.len(), 0);
}

#[test]
fn plan_adversarial_with_mock_runtime_pass() {
    let reply = |v: &str| format!("{{\"verdict\":\"{}\",\"findings\":\"ok\"}}", v);
    assert_eq!(parse_gate_verdict(&reply("pass")), GateVerdict::Pass);
    assert!(parse_gate_verdict(&reply("fail")).is_fail());
}

#[test]
fn security_gate_fails_on_sensitive_plan_id() {
    let gate = SecurityGate;
    assert_eq!(gate.run("plan-safe"), GateVerdict::Pass);
    let v2 = gate.run("plan-with-~/.ssh-path");
    assert!(v2.is_fail());
    assert_eq!(v2.findings(), Some("plan_id contains sensitive path: ~/.ssh"));
    assert_eq!(gate.name(), "security");
}

#[test]
fn security_gate_names_the_first_pattern_in_list_order() {
    // `.env` comes before `credentials` in the list, whatever their places in the id.
    let v = SecurityGate.run("credentials-and-.env");
    assert_eq!(v.findings(), Some("plan_id contains sensitive path: .env"));
}

#[test]
fn scope_reduction_gate_passes() {
    assert_eq!(ScopeReductionGate.run("anything"), GateVerdict::Pass);
    assert_eq!(ScopeReductionGate.name(), "scope_reduction");
}

#[test]
fn reply_verdicts_by_member() {
    assert_eq!(
        parse_gate_verdict("noise {\"verdict\":\"warn\",\"findings\":\"careful\"} trailing"),
        GateVerdict::Warn { findings: "careful".into() }
    );
    assert_eq!(parse_gate_verdict("{\"findings\":\"x\"}"), GateVerdict::Pass);
    assert_eq!(parse_gate_verdict("{\"verdict\":\"fail\"}"), GateVerdict::Fail { findings: "".into() });
    assert_eq!(parse_gate_verdict("{\"verdict\":\"maybe\"}"), GateVerdict::Pass);
    assert_eq!(parse_gate_verdict("no json at all"), GateVerdict::Pass);
    assert_eq!(parse_gate_verdict("{not json}"), GateVerdict::Pass);
    assert_eq!(verdict_from_members(Some("fail"), None), GateVerdict::Fail { findings: "".into() });
    assert_eq!(verdict_from_members(None, Some("f")), GateVerdict::Pass);
}

#[test]
fn oracle_reply_without_json_warns_with_its_start() {
    let long = "y".repeat(300);
    assert_eq!(oracle_reply_verdict(&long), GateVerdict::Warn { findings: "y".repeat(200) });
    assert_eq!(
        oracle_reply_verdict(&OracleConsultGate::unavailable("daily cap reached")),
        GateVerdict::Warn { findings: "oracle unavailable: daily cap reached".into() }
    );
}

#[test]
fn braces_out_of_order_are_detected() {
    assert!(braces_in_order("{}"));
    assert!(braces_in_order("}{"));
    assert!(!braces_in_order("}x{"));
    assert!(braces_in_order("no braces"));
}

#[test]
fn gate_prompts() {
    assert_eq!(adversarial_prompt("critique this", "p1"), "critique this\n\nPlan ID: p1");
    let oracle = Oracle::new(OracleConfig {
        model: "m".into(),
        daily_cap: 1,
        timeout_secs: 1,
        cap_state_path: PathBuf::from("cap.json"),
        claude_path: None,
    });
    let gate = OracleConsultGate::new(oracle, "judge".into());
    assert_eq!(gate.prompt("p2"), "judge\n\nPlan: p2");
    assert_eq!(gate.name(), "oracle_consult");
}
