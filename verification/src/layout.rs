//! Where the files of a task and of its agents lie, below the directory of the task.

use vstd::prelude::*;
use crate::paths::{agent_dir, agent_dir_of, join_path, join_path2, joined};

verus! {

/// The files and directories of one agent.
#[derive(Debug, Clone, PartialEq, Eq)]
pub struct AgentLayout {
    /// The directory of the agent.
    pub agent_dir: String,
    /// The directory of what the run of the agent records.
    pub runtime_dir: String,
    /// The directory of what the agent leaves behind.
    pub artifacts_dir: String,
    /// The home of the vendor tool of this agent.
    pub codex_home_dir: String,
    /// The descriptor of the session.
    pub session_path: String,
    /// The recording of the lines that the worker prints.
    pub events_path: String,
    /// The recording of what the worker writes as errors.
    pub stderr_path: String,
    /// The file that names the process of the worker.
    pub pid_path: String,
    /// The recording of the requests to a persistent worker.
    pub requests_path: String,
    /// The final artifact of the agent.
    pub final_output_path: String,
}

/// The files and directories of one agent, as values.
pub struct AgentLayoutV {
    pub agent_dir: Seq<char>,
    pub runtime_dir: Seq<char>,
    pub artifacts_dir: Seq<char>,
    pub codex_home_dir: Seq<char>,
    pub session_path: Seq<char>,
    pub events_path: Seq<char>,
    pub stderr_path: Seq<char>,
    pub pid_path: Seq<char>,
    pub requests_path: Seq<char>,
    pub final_output_path: Seq<char>,
}

impl View for AgentLayout {
    type V = AgentLayoutV;

    open spec fn view(&self) -> AgentLayoutV {
        AgentLayoutV {
            agent_dir: self.agent_dir@,
            runtime_dir: self.runtime_dir@,
            artifacts_dir: self.artifacts_dir@,
            codex_home_dir: self.codex_home_dir@,
            session_path: self.session_path@,
            events_path: self.events_path@,
            stderr_path: self.stderr_path@,
            pid_path: self.pid_path@,
            requests_path: self.requests_path@,
            final_output_path: self.final_output_path@,
        }
    }
}

/// Where the files of the agent in the directory `dir` lie.
pub open spec fn layout_in(dir: Seq<char>) -> AgentLayoutV {
    AgentLayoutV {
        agent_dir: dir,
        runtime_dir: joined(dir, "runtime"@),
        artifacts_dir: joined(dir, "artifacts"@),
        codex_home_dir: joined(dir, "codex_home"@),
        session_path: joined(dir, "session.json"@),
        events_path: joined(joined(dir, "runtime"@), "events.jsonl"@),
        stderr_path: joined(joined(dir, "runtime"@), "stderr.log"@),
        pid_path: joined(joined(dir, "runtime"@), "pid"@),
        requests_path: joined(joined(dir, "runtime"@), "requests.jsonl"@),
        final_output_path: joined(joined(dir, "artifacts"@), "final.json"@),
    }
}

/// Where the files of the agent in the directory `dir` lie.
pub fn layout_of_dir(dir: &str) -> (r: AgentLayout)
    ensures
        r@ == layout_in(dir@),
{
    AgentLayout {
        agent_dir: crate::text::owned(dir),
        runtime_dir: join_path(dir, "runtime"),
        artifacts_dir: join_path(dir, "artifacts"),
        codex_home_dir: join_path(dir, "codex_home"),
        session_path: join_path(dir, "session.json"),
        events_path: join_path2(dir, "runtime", "events.jsonl"),
        stderr_path: join_path2(dir, "runtime", "stderr.log"),
        pid_path: join_path2(dir, "runtime", "pid"),
        requests_path: join_path2(dir, "runtime", "requests.jsonl"),
        final_output_path: join_path2(dir, "artifacts", "final.json"),
    }
}

/// Where the files of an agent of a task lie.
pub fn agent_layout(task_dir: &str, agent_instance: &str) -> (r: AgentLayout)
    ensures
        r@ == layout_in(agent_dir_of(task_dir@, agent_instance@)),
{
    let dir = agent_dir(task_dir, agent_instance);
    layout_of_dir(dir.as_str())
}

/// The files and directories that a task shares among its agents.
#[derive(Debug, Clone, PartialEq, Eq)]
pub struct SharedLayout {
    /// The state board.
    pub state_board_path: String,
    /// The directory of the reports.
    pub reports_dir: String,
    /// The directory of the evidence.
    pub evidence_dir: String,
    /// The index of the evidence.
    pub evidence_index_path: String,
    /// The joined summary for readers.
    pub joined_summary_md: String,
    /// The joined summary for programs.
    pub joined_summary_json: String,
}

/// The files and directories that a task shares among its agents, as values.
pub struct SharedLayoutV {
    pub state_board_path: Seq<char>,
    pub reports_dir: Seq<char>,
    pub evidence_dir: Seq<char>,
    pub evidence_index_path: Seq<char>,
    pub joined_summary_md: Seq<char>,
    pub joined_summary_json: Seq<char>,
}

impl View for SharedLayout {
    type V = SharedLayoutV;

    open spec fn view(&self) -> SharedLayoutV {
        SharedLayoutV {
            state_board_path: self.state_board_path@,
            reports_dir: self.reports_dir@,
            evidence_dir: self.evidence_dir@,
            evidence_index_path: self.evidence_index_path@,
            joined_summary_md: self.joined_summary_md@,
            joined_summary_json: self.joined_summary_json@,
        }
    }
}

/// Where the shared files of the task in the directory `task_dir` lie.
pub open spec fn shared_in(task_dir: Seq<char>) -> SharedLayoutV {
    let shared = joined(task_dir, "shared"@);
    SharedLayoutV {
        state_board_path: joined(shared, "state-board.md"@),
        reports_dir: joined(shared, "reports"@),
        evidence_dir: joined(shared, "evidence"@),
        evidence_index_path: joined(joined(shared, "evidence"@), "index.json"@),
        joined_summary_md: joined(joined(shared, "reports"@), "joined-summary.md"@),
        joined_summary_json: joined(joined(shared, "reports"@), "joined-summary.json"@),
    }
}

/// Where the shared files of a task lie.
pub fn shared_layout(task_dir: &str) -> (r: SharedLayout)
    ensures
        r@ == shared_in(task_dir@),
{
    let shared = join_path(task_dir, "shared");
    SharedLayout {
        state_board_path: join_path(shared.as_str(), "state-board.md"),
        reports_dir: join_path(shared.as_str(), "reports"),
        evidence_dir: join_path(shared.as_str(), "evidence"),
        evidence_index_path: join_path2(shared.as_str(), "evidence", "index.json"),
        joined_summary_md: join_path2(shared.as_str(), "reports", "joined-summary.md"),
        joined_summary_json: join_path2(shared.as_str(), "reports", "joined-summary.json"),
    }
}

} // verus!
