//! The append-only event log of a swarm session.
use vstd::prelude::*;
use crate::text::{chars_of, chars_eq_str};
use crate::json::{json_str_member, json_string_member};

verus! {

/// What an event records.
#[derive(Debug, Clone, Copy, PartialEq, Eq, Structural)]
pub enum Kind {
    SessionStart,
    SessionEnd,
    PhaseStart,
    PhaseEnd,
    PlanStart,
    PlanEnd,
    PlanDecompose,
    GateRun,
    WorkerStart,
    WorkerTurn,
    WorkerStuck,
    WorkerEnd,
    PeerConsultOpen,
    PeerConsultAnswer,
    PeerConsultClose,
    OracleEscalate,
    OracleAnswer,
    SkillLoad,
    ChunkTimeout,
}

impl Kind {
    /// The name under which the log stores the kind (`snake_case`).
    pub open spec fn spec_name(self) -> Seq<char> {
        match self {
            Kind::SessionStart => "session_start"@,
            Kind::SessionEnd => "session_end"@,
            Kind::PhaseStart => "phase_start"@,
            Kind::PhaseEnd => "phase_end"@,
            Kind::PlanStart => "plan_start"@,
            Kind::PlanEnd => "plan_end"@,
            Kind::PlanDecompose => "plan_decompose"@,
            Kind::GateRun => "gate_run"@,
            Kind::WorkerStart => "worker_start"@,
            Kind::WorkerTurn => "worker_turn"@,
            Kind::WorkerStuck => "worker_stuck"@,
            Kind::WorkerEnd => "worker_end"@,
            Kind::PeerConsultOpen => "peer_consult_open"@,
            Kind::PeerConsultAnswer => "peer_consult_answer"@,
            Kind::PeerConsultClose => "peer_consult_close"@,
            Kind::OracleEscalate => "oracle_escalate"@,
            Kind::OracleAnswer => "oracle_answer"@,
            Kind::SkillLoad => "skill_load"@,
            Kind::ChunkTimeout => "chunk_timeout"@,
        }
    }

    /// The kind stored under the name `s`, if any.
    pub open spec fn spec_from_name(s: Seq<char>) -> Option<Kind> {
        if s == "session_start"@ {
            Some(Kind::SessionStart)
        } else if s == "session_end"@ {
            Some(Kind::SessionEnd)
        } else if s == "phase_start"@ {
            Some(Kind::PhaseStart)
        } else if s == "phase_end"@ {
            Some(Kind::PhaseEnd)
        } else if s == "plan_start"@ {
            Some(Kind::PlanStart)
        } else if s == "plan_end"@ {
            Some(Kind::PlanEnd)
        } else if s == "plan_decompose"@ {
            Some(Kind::PlanDecompose)
        } else if s == "gate_run"@ {
            Some(Kind::GateRun)
        } else if s == "worker_start"@ {
            Some(Kind::WorkerStart)
        } else if s == "worker_turn"@ {
            Some(Kind::WorkerTurn)
        } else if s == "worker_stuck"@ {
            Some(Kind::WorkerStuck)
        } else if s == "worker_end"@ {
            Some(Kind::WorkerEnd)
        } else if s == "peer_consult_open"@ {
            Some(Kind::PeerConsultOpen)
        } else if s == "peer_consult_answer"@ {
            Some(Kind::PeerConsultAnswer)
        } else if s == "peer_consult_close"@ {
            Some(Kind::PeerConsultClose)
        } else if s == "oracle_escalate"@ {
            Some(Kind::OracleEscalate)
        } else if s == "oracle_answer"@ {
            Some(Kind::OracleAnswer)
        } else if s == "skill_load"@ {
            Some(Kind::SkillLoad)
        } else if s == "chunk_timeout"@ {
            Some(Kind::ChunkTimeout)
        } else {
            None
        }
    }

    /// The name under which the log stores the kind.
    pub fn as_str(&self) -> (r: &'static str)
        ensures
            r@ == self.spec_name(),
    {
        match self {
            Kind::SessionStart => "session_start",
            Kind::SessionEnd => "session_end",
            Kind::PhaseStart => "phase_start",
            Kind::PhaseEnd => "phase_end",
            Kind::PlanStart => "plan_start",
            Kind::PlanEnd => "plan_end",
            Kind::PlanDecompose => "plan_decompose",
            Kind::GateRun => "gate_run",
            Kind::WorkerStart => "worker_start",
            Kind::WorkerTurn => "worker_turn",
            Kind::WorkerStuck => "worker_stuck",
            Kind::WorkerEnd => "worker_end",
            Kind::PeerConsultOpen => "peer_consult_open",
            Kind::PeerConsultAnswer => "peer_consult_answer",
            Kind::PeerConsultClose => "peer_consult_close",
            Kind::OracleEscalate => "oracle_escalate",
            Kind::OracleAnswer => "oracle_answer",
            Kind::SkillLoad => "skill_load",
            Kind::ChunkTimeout => "chunk_timeout",
        }
    }

    /// The kind stored under the name `s`, if any.
    pub fn from_name(s: &str) -> (r: Option<Kind>)
        ensures
            r == Kind::spec_from_name(s@),
    {
        let v = chars_of(s);
        if chars_eq_str(&v, "session_start") {
            Some(Kind::SessionStart)
        } else if chars_eq_str(&v, "session_end") {
            Some(Kind::SessionEnd)
        } else if chars_eq_str(&v, "phase_start") {
            Some(Kind::PhaseStart)
        } else if chars_eq_str(&v, "phase_end") {
            Some(Kind::PhaseEnd)
        } else if chars_eq_str(&v, "plan_start") {
            Some(Kind::PlanStart)
        } else if chars_eq_str(&v, "plan_end") {
            Some(Kind::PlanEnd)
        } else if chars_eq_str(&v, "plan_decompose") {
            Some(Kind::PlanDecompose)
        } else if chars_eq_str(&v, "gate_run") {
            Some(Kind::GateRun)
        } else if chars_eq_str(&v, "worker_start") {
            Some(Kind::WorkerStart)
        } else if chars_eq_str(&v, "worker_turn") {
            Some(Kind::WorkerTurn)
        } else if chars_eq_str(&v, "worker_stuck") {
            Some(Kind::WorkerStuck)
        } else if chars_eq_str(&v, "worker_end") {
            Some(Kind::WorkerEnd)
        } else if chars_eq_str(&v, "peer_consult_open") {
            Some(Kind::PeerConsultOpen)
        } else if chars_eq_str(&v, "peer_consult_answer") {
            Some(Kind::PeerConsultAnswer)
        } else if chars_eq_str(&v, "peer_consult_close") {
            Some(Kind::PeerConsultClose)
        } else if chars_eq_str(&v, "oracle_escalate") {
            Some(Kind::OracleEscalate)
        } else if chars_eq_str(&v, "oracle_answer") {
            Some(Kind::OracleAnswer)
        } else if chars_eq_str(&v, "skill_load") {
            Some(Kind::SkillLoad)
        } else if chars_eq_str(&v, "chunk_timeout") {
            Some(Kind::ChunkTimeout)
        } else {
            None
        }
    }
}

/// Reading back the stored name of a kind gives the same kind: the log's kind column
/// round-trips.
pub proof fn kind_name_roundtrip(k: Kind)
    ensures
        Kind::spec_from_name(k.spec_name()) == Some(k),
{
    match k {
        Kind::SessionStart => {
            reveal_strlit("session_start");
            assert("session_start"@.len() == 13);
            assert(Kind::spec_from_name("session_start"@) == Some(Kind::SessionStart));
        },
        Kind::SessionEnd => {
            reveal_strlit("session_start");
            assert("session_start"@.len() == 13);
            reveal_strlit("session_end");
            assert("session_end"@.len() == 11);
            assert(Kind::spec_from_name("session_end"@) == Some(Kind::SessionEnd));
        },
        Kind::PhaseStart => {
            reveal_strlit("session_start");
            assert("session_start"@.len() == 13);
            reveal_strlit("session_end");
            assert("session_end"@.len() == 11);
            reveal_strlit("phase_start");
            assert("phase_start"@.len() == 11);
            assert("session_end"@[0] != "phase_start"@[0]);
            assert(Kind::spec_from_name("phase_start"@) == Some(Kind::PhaseStart));
        },
        Kind::PhaseEnd => {
            reveal_strlit("session_start");
            assert("session_start"@.len() == 13);
            reveal_strlit("session_end");
            assert("session_end"@.len() == 11);
            reveal_strlit("phase_start");
            assert("phase_start"@.len() == 11);
            reveal_strlit("phase_end");
            assert("phase_end"@.len() == 9);
            assert(Kind::spec_from_name("phase_end"@) == Some(Kind::PhaseEnd));
        },
        Kind::PlanStart => {
            reveal_strlit("session_start");
            assert("session_start"@.len() == 13);
            reveal_strlit("session_end");
            assert("session_end"@.len() == 11);
            reveal_strlit("phase_start");
            assert("phase_start"@.len() == 11);
            reveal_strlit("phase_end");
            assert("phase_end"@.len() == 9);
            reveal_strlit("plan_start");
            assert("plan_start"@.len() == 10);
            assert(Kind::spec_from_name("plan_start"@) == Some(Kind::PlanStart));
        },
        Kind::PlanEnd => {
            reveal_strlit("session_start");
            assert("session_start"@.len() == 13);
            reveal_strlit("session_end");
            assert("session_end"@.len() == 11);
            reveal_strlit("phase_start");
            assert("phase_start"@.len() == 11);
            reveal_strlit("phase_end");
            assert("phase_end"@.len() == 9);
            reveal_strlit("plan_start");
            assert("plan_start"@.len() == 10);
            reveal_strlit("plan_end");
            assert("plan_end"@.len() == 8);
            assert(Kind::spec_from_name("plan_end"@) == Some(Kind::PlanEnd));
        },
        Kind::PlanDecompose => {
            reveal_strlit("session_start");
            assert("session_start"@.len() == 13);
            reveal_strlit("session_end");
            assert("session_end"@.len() == 11);
            reveal_strlit("phase_start");
            assert("phase_start"@.len() == 11);
            reveal_strlit("phase_end");
            assert("phase_end"@.len() == 9);
            reveal_strlit("plan_start");
            assert("plan_start"@.len() == 10);
            reveal_strlit("plan_end");
            assert("plan_end"@.len() == 8);
            reveal_strlit("plan_decompose");
            assert("plan_decompose"@.len() == 14);
            assert(Kind::spec_from_name("plan_decompose"@) == Some(Kind::PlanDecompose));
        },
        Kind::GateRun => {
            reveal_strlit("session_start");
            assert("session_start"@.len() == 13);
            reveal_strlit("session_end");
            assert("session_end"@.len() == 11);
            reveal_strlit("phase_start");
            assert("phase_start"@.len() == 11);
            reveal_strlit("phase_end");
            assert("phase_end"@.len() == 9);
            reveal_strlit("plan_start");
            assert("plan_start"@.len() == 10);
            reveal_strlit("plan_end");
            assert("plan_end"@.len() == 8);
            reveal_strlit("plan_decompose");
            assert("plan_decompose"@.len() == 14);
            reveal_strlit("gate_run");
            assert("gate_run"@.len() == 8);
            assert("plan_end"@[0] != "gate_run"@[0]);
            assert(Kind::spec_from_name("gate_run"@) == Some(Kind::GateRun));
        },
        Kind::WorkerStart => {
            reveal_strlit("session_start");
            assert("session_start"@.len() == 13);
            reveal_strlit("session_end");
            assert("session_end"@.len() == 11);
            reveal_strlit("phase_start");
            assert("phase_start"@.len() == 11);
            reveal_strlit("phase_end");
            assert("phase_end"@.len() == 9);
            reveal_strlit("plan_start");
            assert("plan_start"@.len() == 10);
            reveal_strlit("plan_end");
            assert("plan_end"@.len() == 8);
            reveal_strlit("plan_decompose");
            assert("plan_decompose"@.len() == 14);
            reveal_strlit("gate_run");
            assert("gate_run"@.len() == 8);
            reveal_strlit("worker_start");
            assert("worker_start"@.len() == 12);
            assert(Kind::spec_from_name("worker_start"@) == Some(Kind::WorkerStart));
        },
        Kind::WorkerTurn => {
            reveal_strlit("session_start");
            assert("session_start"@.len() == 13);
            reveal_strlit("session_end");
            assert("session_end"@.len() == 11);
            reveal_strlit("phase_start");
            assert("phase_start"@.len() == 11);
            reveal_strlit("phase_end");
            assert("phase_end"@.len() == 9);
            reveal_strlit("plan_start");
            assert("plan_start"@.len() == 10);
            reveal_strlit("plan_end");
            assert("plan_end"@.len() == 8);
            reveal_strlit("plan_decompose");
            assert("plan_decompose"@.len() == 14);
            reveal_strlit("gate_run");
            assert("gate_run"@.len() == 8);
            reveal_strlit("worker_start");
            assert("worker_start"@.len() == 12);
            reveal_strlit("worker_turn");
            assert("worker_turn"@.len() == 11);
            assert("session_end"@[0] != "worker_turn"@[0]);
            assert("phase_start"@[0] != "worker_turn"@[0]);
            assert(Kind::spec_from_name("worker_turn"@) == Some(Kind::WorkerTurn));
        },
        Kind::WorkerStuck => {
            reveal_strlit("session_start");
            assert("session_start"@.len() == 13);
            reveal_strlit("session_end");
            assert("session_end"@.len() == 11);
            reveal_strlit("phase_start");
            assert("phase_start"@.len() == 11);
            reveal_strlit("phase_end");
            assert("phase_end"@.len() == 9);
            reveal_strlit("plan_start");
            assert("plan_start"@.len() == 10);
            reveal_strlit("plan_end");
            assert("plan_end"@.len() == 8);
            reveal_strlit("plan_decompose");
            assert("plan_decompose"@.len() == 14);
            reveal_strlit("gate_run");
            assert("gate_run"@.len() == 8);
            reveal_strlit("worker_start");
            assert("worker_start"@.len() == 12);
            reveal_strlit("worker_turn");
            assert("worker_turn"@.len() == 11);
            reveal_strlit("worker_stuck");
            assert("worker_stuck"@.len() == 12);
            assert("worker_start"@[9] != "worker_stuck"@[9]);
            assert(Kind::spec_from_name("worker_stuck"@) == Some(Kind::WorkerStuck));
        },
        Kind::WorkerEnd => {
            reveal_strlit("session_start");
            assert("session_start"@.len() == 13);
            reveal_strlit("session_end");
            assert("session_end"@.len() == 11);
            reveal_strlit("phase_start");
            assert("phase_start"@.len() == 11);
            reveal_strlit("phase_end");
            assert("phase_end"@.len() == 9);
            reveal_strlit("plan_start");
            assert("plan_start"@.len() == 10);
            reveal_strlit("plan_end");
            assert("plan_end"@.len() == 8);
            reveal_strlit("plan_decompose");
            assert("plan_decompose"@.len() == 14);
            reveal_strlit("gate_run");
            assert("gate_run"@.len() == 8);
            reveal_strlit("worker_start");
            assert("worker_start"@.len() == 12);
            reveal_strlit("worker_turn");
            assert("worker_turn"@.len() == 11);
            reveal_strlit("worker_stuck");
            assert("worker_stuck"@.len() == 12);
            reveal_strlit("worker_end");
            assert("worker_end"@.len() == 10);
            assert("plan_start"@[0] != "worker_end"@[0]);
            assert(Kind::spec_from_name("worker_end"@) == Some(Kind::WorkerEnd));
        },
        Kind::PeerConsultOpen => {
            reveal_strlit("session_start");
            assert("session_start"@.len() == 13);
            reveal_strlit("session_end");
            assert("session_end"@.len() == 11);
            reveal_strlit("phase_start");
            assert("phase_start"@.len() == 11);
            reveal_strlit("phase_end");
            assert("phase_end"@.len() == 9);
            reveal_strlit("plan_start");
            assert("plan_start"@.len() == 10);
            reveal_strlit("plan_end");
            assert("plan_end"@.len() == 8);
            reveal_strlit("plan_decompose");
            assert("plan_decompose"@.len() == 14);
            reveal_strlit("gate_run");
            assert("gate_run"@.len() == 8);
            reveal_strlit("worker_start");
            assert("worker_start"@.len() == 12);
            reveal_strlit("worker_turn");
            assert("worker_turn"@.len() == 11);
            reveal_strlit("worker_stuck");
            assert("worker_stuck"@.len() == 12);
            reveal_strlit("worker_end");
            assert("worker_end"@.len() == 10);
            reveal_strlit("peer_consult_open");
            assert("peer_consult_open"@.len() == 17);
            assert(Kind::spec_from_name("peer_consult_open"@) == Some(Kind::PeerConsultOpen));
        },
        Kind::PeerConsultAnswer => {
            reveal_strlit("session_start");
            assert("session_start"@.len() == 13);
            reveal_strlit("session_end");
            assert("session_end"@.len() == 11);
            reveal_strlit("phase_start");
            assert("phase_start"@.len() == 11);
            reveal_strlit("phase_end");
            assert("phase_end"@.len() == 9);
            reveal_strlit("plan_start");
            assert("plan_start"@.len() == 10);
            reveal_strlit("plan_end");
            assert("plan_end"@.len() == 8);
            reveal_strlit("plan_decompose");
            assert("plan_decompose"@.len() == 14);
            reveal_strlit("gate_run");
            assert("gate_run"@.len() == 8);
            reveal_strlit("worker_start");
            assert("worker_start"@.len() == 12);
            reveal_strlit("worker_turn");
            assert("worker_turn"@.len() == 11);
            reveal_strlit("worker_stuck");
            assert("worker_stuck"@.len() == 12);
            reveal_strlit("worker_end");
            assert("worker_end"@.len() == 10);
            reveal_strlit("peer_consult_open");
            assert("peer_consult_open"@.len() == 17);
            reveal_strlit("peer_consult_answer");
            assert("peer_consult_answer"@.len() == 19);
            assert(Kind::spec_from_name("peer_consult_answer"@) == Some(Kind::PeerConsultAnswer));
        },
        Kind::PeerConsultClose => {
            reveal_strlit("session_start");
            assert("session_start"@.len() == 13);
            reveal_strlit("session_end");
            assert("session_end"@.len() == 11);
            reveal_strlit("phase_start");
            assert("phase_start"@.len() == 11);
            reveal_strlit("phase_end");
            assert("phase_end"@.len() == 9);
            reveal_strlit("plan_start");
            assert("plan_start"@.len() == 10);
            reveal_strlit("plan_end");
            assert("plan_end"@.len() == 8);
            reveal_strlit("plan_decompose");
            assert("plan_decompose"@.len() == 14);
            reveal_strlit("gate_run");
            assert("gate_run"@.len() == 8);
            reveal_strlit("worker_start");
            assert("worker_start"@.len() == 12);
            reveal_strlit("worker_turn");
            assert("worker_turn"@.len() == 11);
            reveal_strlit("worker_stuck");
            assert("worker_stuck"@.len() == 12);
            reveal_strlit("worker_end");
            assert("worker_end"@.len() == 10);
            reveal_strlit("peer_consult_open");
            assert("peer_consult_open"@.len() == 17);
            reveal_strlit("peer_consult_answer");
            assert("peer_consult_answer"@.len() == 19);
            reveal_strlit("peer_consult_close");
            assert("peer_consult_close"@.len() == 18);
            assert(Kind::spec_from_name("peer_consult_close"@) == Some(Kind::PeerConsultClose));
        },
        Kind::OracleEscalate => {
            reveal_strlit("session_start");
            assert("session_start"@.len() == 13);
            reveal_strlit("session_end");
            assert("session_end"@.len() == 11);
            reveal_strlit("phase_start");
            assert("phase_start"@.len() == 11);
            reveal_strlit("phase_end");
            assert("phase_end"@.len() == 9);
            reveal_strlit("plan_start");
            assert("plan_start"@.len() == 10);
            reveal_strlit("plan_end");
            assert("plan_end"@.len() == 8);
            reveal_strlit("plan_decompose");
            assert("plan_decompose"@.len() == 14);
            reveal_strlit("gate_run");
            assert("gate_run"@.len() == 8);
            reveal_strlit("worker_start");
            assert("worker_start"@.len() == 12);
            reveal_strlit("worker_turn");
            assert("worker_turn"@.len() == 11);
            reveal_strlit("worker_stuck");
            assert("worker_stuck"@.len() == 12);
            reveal_strlit("worker_end");
            assert("worker_end"@.len() == 10);
            reveal_strlit("peer_consult_open");
            assert("peer_consult_open"@.len() == 17);
            reveal_strlit("peer_consult_answer");
            assert("peer_consult_answer"@.len() == 19);
            reveal_strlit("peer_consult_close");
            assert("peer_consult_close"@.len() == 18);
            reveal_strlit("oracle_escalate");
            assert("oracle_escalate"@.len() == 15);
            assert(Kind::spec_from_name("oracle_escalate"@) == Some(Kind::OracleEscalate));
        },
        Kind::OracleAnswer => {
            reveal_strlit("session_start");
            assert("session_start"@.len() == 13);
            reveal_strlit("session_end");
            assert("session_end"@.len() == 11);
            reveal_strlit("phase_start");
            assert("phase_start"@.len() == 11);
            reveal_strlit("phase_end");
            assert("phase_end"@.len() == 9);
            reveal_strlit("plan_start");
            assert("plan_start"@.len() == 10);
            reveal_strlit("plan_end");
            assert("plan_end"@.len() == 8);
            reveal_strlit("plan_decompose");
            assert("plan_decompose"@.len() == 14);
            reveal_strlit("gate_run");
            assert("gate_run"@.len() == 8);
            reveal_strlit("worker_start");
            assert("worker_start"@.len() == 12);
            reveal_strlit("worker_turn");
            assert("worker_turn"@.len() == 11);
            reveal_strlit("worker_stuck");
            assert("worker_stuck"@.len() == 12);
            reveal_strlit("worker_end");
            assert("worker_end"@.len() == 10);
            reveal_strlit("peer_consult_open");
            assert("peer_consult_open"@.len() == 17);
            reveal_strlit("peer_consult_answer");
            assert("peer_consult_answer"@.len() == 19);
            reveal_strlit("peer_consult_close");
            assert("peer_consult_close"@.len() == 18);
            reveal_strlit("oracle_escalate");
            assert("oracle_escalate"@.len() == 15);
            reveal_strlit("oracle_answer");
            assert("oracle_answer"@.len() == 13);
            assert("session_start"@[0] != "oracle_answer"@[0]);
            assert(Kind::spec_from_name("oracle_answer"@) == Some(Kind::OracleAnswer));
        },
        Kind::SkillLoad => {
            reveal_strlit("session_start");
            assert("session_start"@.len() == 13);
            reveal_strlit("session_end");
            assert("session_end"@.len() == 11);
            reveal_strlit("phase_start");
            assert("phase_start"@.len() == 11);
            reveal_strlit("phase_end");
            assert("phase_end"@.len() == 9);
            reveal_strlit("plan_start");
            assert("plan_start"@.len() == 10);
            reveal_strlit("plan_end");
            assert("plan_end"@.len() == 8);
            reveal_strlit("plan_decompose");
            assert("plan_decompose"@.len() == 14);
            reveal_strlit("gate_run");
            assert("gate_run"@.len() == 8);
            reveal_strlit("worker_start");
            assert("worker_start"@.len() == 12);
            reveal_strlit("worker_turn");
            assert("worker_turn"@.len() == 11);
            reveal_strlit("worker_stuck");
            assert("worker_stuck"@.len() == 12);
            reveal_strlit("worker_end");
            assert("worker_end"@.len() == 10);
            reveal_strlit("peer_consult_open");
            assert("peer_consult_open"@.len() == 17);
            reveal_strlit("peer_consult_answer");
            assert("peer_consult_answer"@.len() == 19);
            reveal_strlit("peer_consult_close");
            assert("peer_consult_close"@.len() == 18);
            reveal_strlit("oracle_escalate");
            assert("oracle_escalate"@.len() == 15);
            reveal_strlit("oracle_answer");
            assert("oracle_answer"@.len() == 13);
            reveal_strlit("skill_load");
            assert("skill_load"@.len() == 10);
            assert("plan_start"@[0] != "skill_load"@[0]);
            assert("worker_end"@[0] != "skill_load"@[0]);
            assert(Kind::spec_from_name("skill_load"@) == Some(Kind::SkillLoad));
        },
        Kind::ChunkTimeout => {
            reveal_strlit("session_start");
            assert("session_start"@.len() == 13);
            reveal_strlit("session_end");
            assert("session_end"@.len() == 11);
            reveal_strlit("phase_start");
            assert("phase_start"@.len() == 11);
            reveal_strlit("phase_end");
            assert("phase_end"@.len() == 9);
            reveal_strlit("plan_start");
            assert("plan_start"@.len() == 10);
            reveal_strlit("plan_end");
            assert("plan_end"@.len() == 8);
            reveal_strlit("plan_decompose");
            assert("plan_decompose"@.len() == 14);
            reveal_strlit("gate_run");
            assert("gate_run"@.len() == 8);
            reveal_strlit("worker_start");
            assert("worker_start"@.len() == 12);
            reveal_strlit("worker_turn");
            assert("worker_turn"@.len() == 11);
            reveal_strlit("worker_stuck");
            assert("worker_stuck"@.len() == 12);
            reveal_strlit("worker_end");
            assert("worker_end"@.len() == 10);
            reveal_strlit("peer_consult_open");
            assert("peer_consult_open"@.len() == 17);
            reveal_strlit("peer_consult_answer");
            assert("peer_consult_answer"@.len() == 19);
            reveal_strlit("peer_consult_close");
            assert("peer_consult_close"@.len() == 18);
            reveal_strlit("oracle_escalate");
            assert("oracle_escalate"@.len() == 15);
            reveal_strlit("oracle_answer");
            assert("oracle_answer"@.len() == 13);
            reveal_strlit("skill_load");
            assert("skill_load"@.len() == 10);
            reveal_strlit("chunk_timeout");
            assert("chunk_timeout"@.len() == 13);
            assert("session_start"@[0] != "chunk_timeout"@[0]);
            assert("oracle_answer"@[0] != "chunk_timeout"@[0]);
            assert(Kind::spec_from_name("chunk_timeout"@) == Some(Kind::ChunkTimeout));
        },
    }
}

/// An event of the log. Its time is an RFC 3339 text and its payload a JSON text.
#[derive(Debug, Clone)]
pub struct Event {
    pub id: Option<i64>,
    pub session_id: String,
    pub phase_id: Option<String>,
    pub plan_id: Option<String>,
    pub worker_id: Option<String>,
    pub ts: String,
    pub kind: Kind,
    pub payload: String,
}

/// The answer of the log to any update of a stored event: a refusal, for the log is
/// append-only.
pub fn refuse_update() -> (r: Result<(), String>)
    ensures
        r matches Err(m) && m@ == "append-only"@,
{
    Err(crate::text::owned("append-only"))
}

/// The time `t` as chrono reads it and writes it back in UTC: `None` when
/// `chrono::DateTime::parse_from_rfc3339` refuses `t`; else the RFC 3339 text of that
/// instant in UTC, as `DateTime::<Utc>::to_rfc3339` writes it.
pub uninterp spec fn utc_time_text(t: Seq<char>) -> Option<Seq<char>>;

/// `chrono::DateTime::parse_from_rfc3339`, then `with_timezone(&Utc)` and
/// `to_rfc3339`. The contract names the outcome `utc_time_text` and says nothing more
/// of which texts parse or how the instant is written.
#[verifier::external_body]
fn utc_time(t: &str) -> (r: Option<String>)
    ensures
        match r {
            None => utc_time_text(t@) is None,
            Some(u) => utc_time_text(t@) == Some(u@),
        },
{
    chrono::DateTime::parse_from_rfc3339(t).ok().map(|dt| dt.with_timezone(&chrono::Utc).to_rfc3339())
}

/// What `serde_json::from_str::<String>` reads from `t`: the string that the JSON text
/// `t` is, or `None` when `t` is not a JSON string.
pub uninterp spec fn json_string_of(t: Seq<char>) -> Option<Seq<char>>;

/// `serde_json::from_str::<String>`; the contract names the outcome `json_string_of`.
#[verifier::external_body]
fn json_string(t: &str) -> (r: Option<String>)
    ensures
        match r {
            None => json_string_of(t@) is None,
            Some(u) => json_string_of(t@) == Some(u@),
        },
{
    serde_json::from_str::<String>(t).ok()
}

/// The kind that a stored kind column names: the column is read as the body of a JSON
/// string (so escapes are decoded), and the text it gives is looked up by name.
pub open spec fn kind_of_column(k: Seq<char>) -> Option<Kind> {
    match json_string_of("\""@ + k + "\""@) {
        Some(n) => Kind::spec_from_name(n),
        None => None,
    }
}

/// The text `t` is JSON: `serde_json` parses it into a value.
pub open spec fn json_parses(t: Seq<char>) -> bool {
    json_str_member(t, Seq::<char>::empty()) is Some
}

/// The column of a stored event that does not read back.
#[derive(Debug, Clone, Copy, PartialEq, Eq, Structural)]
pub enum BadColumn {
    /// The time is not RFC 3339 (column 5).
    Ts,
    /// The kind is no known name (column 6).
    Kind,
    /// The payload is not JSON (column 7).
    Payload,
}

/// The event stored in the columns of a row of the log, checked in the order time,
/// kind, payload: the first column that does not read back is the error. The time is
/// kept as the RFC 3339 text of its instant in UTC (see `utc_time_text`), the kind is
/// read as the body of a JSON string (see `kind_of_column`), and the payload must be
/// JSON.
pub fn event_from_columns(
    id: i64,
    session_id: String,
    phase_id: Option<String>,
    plan_id: Option<String>,
    worker_id: Option<String>,
    ts: String,
    kind: &str,
    payload: String,
) -> (r: Result<Event, BadColumn>)
    ensures
        utc_time_text(ts@) is None <==> r == Err::<Event, BadColumn>(BadColumn::Ts),
        utc_time_text(ts@) is Some && kind_of_column(kind@) is None
            <==> r == Err::<Event, BadColumn>(BadColumn::Kind),
        utc_time_text(ts@) is Some && kind_of_column(kind@) is Some && !json_parses(payload@)
            <==> r == Err::<Event, BadColumn>(BadColumn::Payload),
        r matches Ok(e) ==> {
            &&& e.id == Some(id)
            &&& e.session_id == session_id
            &&& e.phase_id == phase_id
            &&& e.plan_id == plan_id
            &&& e.worker_id == worker_id
            &&& utc_time_text(ts@) == Some(e.ts@)
            &&& kind_of_column(kind@) == Some(e.kind)
            &&& e.payload == payload
        },
{
    let utc = match utc_time(ts.as_str()) {
        Some(u) => u,
        None => {
            return Err(BadColumn::Ts);
        },
    };
    let mut quoted = crate::text::owned("\"");
    crate::text::push_str(&mut quoted, kind);
    crate::text::push_str(&mut quoted, "\"");
    let name = match json_string(quoted.as_str()) {
        Some(n) => n,
        None => {
            return Err(BadColumn::Kind);
        },
    };
    let k = match Kind::from_name(name.as_str()) {
        Some(k) => k,
        None => {
            return Err(BadColumn::Kind);
        },
    };
    proof {
        reveal_strlit("");
        assert(""@ =~= Seq::<char>::empty());
    }
    if json_string_member(payload.as_str(), "").is_none() {
        return Err(BadColumn::Payload);
    }
    Ok(Event { id: Some(id), session_id, phase_id, plan_id, worker_id, ts: utc, kind: k, payload })
}

} // verus!
