//! The operations of the store and of the orchestrator on what the caller has read from
//! disk: each decides what the operation returns and what is to be written, and leaves
//! the reading and the writing to the caller.

use vstd::prelude::*;
use crate::codec::{
    event_json, event_line, events_in, parse_event_log, task_from_yaml, task_json, task_of,
    task_to_yaml,
};
use crate::error::{OrchestratorError, TaskStoreError};
use crate::json::{compact_json, parsed_yaml, pretty_json, to_pretty_text, JsonV};
use crate::layout::{agent_layout, layout_in, AgentLayout, AgentLayoutV};
use crate::orchestrator::Orchestrator;
use crate::paths::{agent_dir_of, joined, path_to_portable_string, portable, task_dir_of};
use crate::reconcile::SubagentInfo;
use crate::session::{descriptor_json, session_descriptor, ThreadIdField};
use crate::split::lines;
use crate::store::{
    is_task_entry, listed, lists_entry, select_events, selected_events, sort_tasks, TaskStore,
};
use crate::supervisor::{
    admit_spawn, cancellation_events, effective_timeout, exec_arguments, exec_arguments_of,
    finish_cancel, first_finished_index, roster_index, spawn_verdict, verdict_of, wait_any_step,
    with_cancelled_agent, Cancellation, SubagentSpawnRequest, WaitStep,
};
use crate::task::{AgentInstanceState, TaskConfig, TaskEvent, TaskFile, TaskFileV, Timestamp};
use crate::text::{copy_string, lemma_views_push, opt_view, owned, views};

verus! {

/// A file that is to be written: its path and its content.
#[derive(Debug, Clone, PartialEq, Eq)]
pub struct StoredFile {
    pub path: String,
    pub content: String,
}

/// An entry of the directory of the tasks, as the caller found it: its name, whether it
/// is a directory, and the content of the descriptor in it, where it holds one.
#[derive(Debug, Clone, PartialEq, Eq)]
pub struct FoundEntry {
    pub name: String,
    pub is_dir: bool,
    pub descriptor: Option<String>,
}

/// The view of a [`FoundEntry`].
pub struct FoundEntryV {
    pub name: Seq<char>,
    pub is_dir: bool,
    pub descriptor: Option<Seq<char>>,
}

impl View for FoundEntry {
    type V = FoundEntryV;

    open spec fn view(&self) -> FoundEntryV {
        FoundEntryV { name: self.name@, is_dir: self.is_dir, descriptor: opt_view(self.descriptor) }
    }
}

/// The descriptor that a YAML text holds, where it holds one.
pub open spec fn task_in_yaml(text: Seq<char>, now: Timestamp) -> Option<TaskFileV> {
    match parsed_yaml(text) {
        Some(doc) => task_of(doc, now),
        None => None,
    }
}

/// The tasks of the first `n` entries, in the order of the entries: the descriptor of
/// each entry that stands for a task. Nothing where one of those descriptors cannot be
/// read.
pub open spec fn tasks_among(entries: Seq<FoundEntryV>, now: Timestamp, n: int) -> Option<
    Seq<TaskFileV>,
>
    decreases n,
{
    if n <= 0 || n > entries.len() {
        Some(Seq::empty())
    } else {
        match tasks_among(entries, now, n - 1) {
            None => None,
            Some(rest) => {
                let e = entries[n - 1];
                if is_task_entry(e.name, e.is_dir, e.descriptor is Some) {
                    match task_in_yaml(e.descriptor->0, now) {
                        Some(t) => Some(rest.push(t)),
                        None => None,
                    }
                } else {
                    Some(rest)
                }
            },
        }
    }
}

/// Entries of which one cannot be read stay unreadable when more entries follow.
proof fn lemma_tasks_among_fails(entries: Seq<FoundEntryV>, now: Timestamp, n: int, m: int)
    requires
        0 <= n <= m <= entries.len(),
        tasks_among(entries, now, n) is None,
    ensures
        tasks_among(entries, now, m) is None,
    decreases m - n,
{
    if n < m {
        lemma_tasks_among_fails(entries, now, n, m - 1);
    }
}

impl TaskStore {
    /// Reads the descriptor of a task from the content of its file. A task without a
    /// file is not found; a file that holds no descriptor is an error of YAML. The
    /// instants that the file does not name are `now`.
    pub fn read_task(&self, task_id: &str, content: Option<&str>, now: Timestamp) -> (r: Result<
        TaskFile,
        TaskStoreError,
    >)
        ensures
            match content {
                None => r matches Err(TaskStoreError::TaskNotFound { task_id: t }) && t@
                    == task_id@,
                Some(text) => match task_in_yaml(text@, now) {
                    Some(t) => r matches Ok(task) && task@ == t,
                    None => r matches Err(TaskStoreError::Yaml(_)),
                },
            },
    {
        match content {
            None => Err(TaskStoreError::TaskNotFound { task_id: owned(task_id) }),
            Some(text) => task_from_yaml(text, now),
        }
    }

    /// Decides what is written for a task: the file of its descriptor, with the
    /// descriptor as YAML.
    pub fn write_task(&self, task: &TaskFile) -> (r: StoredFile)
        ensures
            r.path@ == joined(task_dir_of(self.root(), task@.id), "task.yaml"@),
            r.content@ == crate::json::yaml_text(task_json(task@)),
    {
        StoredFile { path: self.task_file(task.id.as_str()), content: task_to_yaml(task) }
    }

    /// Reads the events of a task for a reader from the content of its log: the events
    /// whose type begins with the prefix, `limit` of them after the first `offset`. A task
    /// without a log has no events; a log with a line that is no event is an error of
    /// JSON.
    pub fn read_task_events(
        &self,
        content: Option<&str>,
        event_type_prefix: Option<&str>,
        limit: usize,
        offset: usize,
    ) -> (r: Result<Vec<TaskEvent>, TaskStoreError>)
        ensures
            match content {
                None => r matches Ok(v) && v@.len() == 0,
                Some(text) => match events_in(lines(text@), lines(text@).len() as int) {
                    Some(events) => r matches Ok(v) && views(v@) == selected_events(
                        events,
                        match event_type_prefix {
                            Some(p) => Some(p@),
                            None => None,
                        },
                        limit as nat,
                        offset as nat,
                    ),
                    None => r matches Err(TaskStoreError::Json(_)),
                },
            },
    {
        match content {
            None => Ok(Vec::new()),
            Some(text) => match parse_event_log(text) {
                Ok(log) => Ok(select_events(log, event_type_prefix, limit, offset)),
                Err(e) => Err(e),
            },
        }
    }

    /// Decides what is appended for an event: one line at the end of the log of the
    /// task.
    pub fn append_task_event(&self, task_id: &str, event: &TaskEvent) -> (r: StoredFile)
        ensures
            r.path@ == joined(task_dir_of(self.root(), task_id@), "events.jsonl"@),
            r.content@ == compact_json(event_json(event@)).push('\n'),
    {
        StoredFile { path: self.events_file(task_id), content: event_line(event) }
    }

    /// Lists the tasks of a workspace from the entries of the directory of its tasks: the
    /// task of each entry that stands for one, the most recently updated first. An entry
    /// that stands for a task and whose descriptor cannot be read fails the listing.
    pub fn list_tasks(&self, entries: &Vec<FoundEntry>, now: Timestamp) -> (r: Result<
        Vec<TaskFile>,
        TaskStoreError,
    >)
        ensures
            match tasks_among(views(entries@), now, entries@.len() as int) {
                Some(tasks) => r matches Ok(v) && views(v@) == listed(tasks),
                None => r matches Err(TaskStoreError::Yaml(_)),
            },
    {
        let mut tasks: Vec<TaskFile> = Vec::new();
        proof {
            assert(views(tasks@) =~= Seq::<TaskFileV>::empty());
        }
        let mut i: usize = 0;
        while i < entries.len()
            invariant
                i <= entries.len(),
                tasks_among(views(entries@), now, i as int) == Some(views(tasks@)),
            decreases entries.len() - i,
        {
            let e = &entries[i];
            proof {
                assert(views(entries@)[i as int] == e@);
            }
            if lists_entry(e.name.as_str(), e.is_dir, e.descriptor.is_some()) {
                let text: &str = match &e.descriptor {
                    Some(t) => t.as_str(),
                    None => "",
                };
                match task_from_yaml(text, now) {
                    Ok(task) => {
                        proof {
                            lemma_views_push(tasks@, task);
                        }
                        tasks.push(task);
                    },
                    Err(err) => {
                        proof {
                            lemma_tasks_among_fails(
                                views(entries@),
                                now,
                                i + 1,
                                entries@.len() as int,
                            );
                        }
                        return Err(err);
                    },
                }
            }
            i += 1;
        }
        Ok(sort_tasks(tasks))
    }
}

/// What is to be done to start a batch worker for a new agent.
#[derive(Debug, Clone, PartialEq, Eq)]
pub struct SpawnPlan {
    /// The files of the agent. The directories of the runtime, of the artifacts and of
    /// the home of the vendor tool are created, a final artifact that lies there is
    /// removed, and the recordings of events and of errors are begun anew.
    pub layout: AgentLayout,
    /// The content of the descriptor of the session.
    pub session_text: String,
    /// The program to run, with the home of the vendor tool of the agent as its
    /// `CODEX_HOME`.
    pub program: String,
    /// The arguments of the program.
    pub arguments: Vec<String>,
    /// The directory in which the program runs.
    pub cwd: String,
}

/// The view of a [`SpawnPlan`].
pub struct SpawnPlanV {
    pub layout: AgentLayoutV,
    pub session_text: Seq<char>,
    pub program: Seq<char>,
    pub arguments: Seq<Seq<char>>,
    pub cwd: Seq<char>,
}

impl View for SpawnPlan {
    type V = SpawnPlanV;

    open spec fn view(&self) -> SpawnPlanV {
        SpawnPlanV {
            layout: self.layout@,
            session_text: self.session_text@,
            program: self.program@,
            arguments: views(self.arguments@),
            cwd: self.cwd@,
        }
    }
}

/// The plan for the start of a batch worker in the directory of a task.
pub open spec fn spawn_plan_of(
    task_dir: Seq<char>,
    agent_instance: Seq<char>,
    prompt: Seq<char>,
    cwd: Seq<char>,
    codex_bin: Seq<char>,
    output_schema_path: Seq<char>,
) -> SpawnPlanV {
    let layout = layout_in(agent_dir_of(task_dir, agent_instance));
    SpawnPlanV {
        layout: layout,
        session_text: pretty_json(
            descriptor_json(
                "codex-exec"@,
                Some(JsonV::Null),
                None,
                cwd,
                portable(layout.agent_dir, layout.codex_home_dir),
                false,
            ),
        ),
        program: codex_bin,
        arguments: exec_arguments_of(cwd, output_schema_path, layout.final_output_path, prompt),
        cwd: cwd,
    }
}

impl Orchestrator {
    /// Lists the tasks of the workspace. See [`TaskStore::list_tasks`].
    pub fn list_tasks(&self, entries: &Vec<FoundEntry>, now: Timestamp) -> (r: Result<
        Vec<TaskFile>,
        TaskStoreError,
    >)
        ensures
            match tasks_among(views(entries@), now, entries@.len() as int) {
                Some(tasks) => r matches Ok(v) && views(v@) == listed(tasks),
                None => r matches Err(TaskStoreError::Yaml(_)),
            },
    {
        self.store().list_tasks(entries, now)
    }

    /// Reads the descriptor of a task. See [`TaskStore::read_task`].
    pub fn get_task(&self, task_id: &str, content: Option<&str>, now: Timestamp) -> (r: Result<
        TaskFile,
        TaskStoreError,
    >)
        ensures
            match content {
                None => r matches Err(TaskStoreError::TaskNotFound { task_id: t }) && t@
                    == task_id@,
                Some(text) => match task_in_yaml(text@, now) {
                    Some(t) => r matches Ok(task) && task@ == t,
                    None => r matches Err(TaskStoreError::Yaml(_)),
                },
            },
    {
        self.store().read_task(task_id, content, now)
    }

    /// Reads the events of a task for a reader. See [`TaskStore::read_task_events`].
    pub fn get_task_events(
        &self,
        content: Option<&str>,
        event_type_prefix: Option<&str>,
        limit: usize,
        offset: usize,
    ) -> (r: Result<Vec<TaskEvent>, TaskStoreError>)
        ensures
            match content {
                None => r matches Ok(v) && v@.len() == 0,
                Some(text) => match events_in(lines(text@), lines(text@).len() as int) {
                    Some(events) => r matches Ok(v) && views(v@) == selected_events(
                        events,
                        match event_type_prefix {
                            Some(p) => Some(p@),
                            None => None,
                        },
                        limit as nat,
                        offset as nat,
                    ),
                    None => r matches Err(TaskStoreError::Json(_)),
                },
            },
    {
        self.store().read_task_events(content, event_type_prefix, limit, offset)
    }

    /// Decides on the start of a batch worker for a new agent of a reconciled task.
    ///
    /// `infos` are the reconciled agents of the task, `limit` is how many of them may
    /// run at once, and `dir_exists` tells whether the directory of the new agent
    /// exists. The worker is started exactly where `admit_spawn` admits it, and then as
    /// the plan says; once it runs, the caller writes its pid file and records it with
    /// `register_spawn`.
    pub fn subagent_spawn(
        &self,
        infos: &Vec<SubagentInfo>,
        limit: u32,
        req: &SubagentSpawnRequest,
        dir_exists: bool,
    ) -> (r: Result<SpawnPlan, OrchestratorError>)
        ensures
            match r {
                Ok(plan) => spawn_verdict(
                    views(infos@),
                    limit,
                    req.agent_instance@,
                    req.agent@,
                    dir_exists,
                ) is Admitted && plan@ == spawn_plan_of(
                    task_dir_of(self.store_view().root(), req.task_id@),
                    req.agent_instance@,
                    req.prompt@,
                    req.cwd@,
                    req.codex_bin@,
                    req.output_schema_path@,
                ),
                Err(e) => verdict_of(Err(e), req.agent_instance@) == Some(
                    spawn_verdict(views(infos@), limit, req.agent_instance@, req.agent@, dir_exists),
                ),
            },
    {
        match admit_spawn(infos, limit, req.agent_instance.as_str(), req.agent.as_str(), dir_exists) {
            Err(e) => {
                return Err(e);
            },
            Ok(()) => {},
        }
        let task_dir = self.store().task_dir(req.task_id.as_str());
        let layout = agent_layout(task_dir.as_str(), req.agent_instance.as_str());
        let home = path_to_portable_string(layout.agent_dir.as_str(), layout.codex_home_dir.as_str());
        let descriptor = session_descriptor(
            "codex-exec",
            ThreadIdField::Null,
            None,
            req.cwd.as_str(),
            home.as_str(),
            false,
        );
        let arguments = exec_arguments(
            req.cwd.as_str(),
            req.output_schema_path.as_str(),
            layout.final_output_path.as_str(),
            req.prompt.as_str(),
        );
        Ok(
            SpawnPlan {
                layout: layout,
                session_text: to_pretty_text(&descriptor),
                program: copy_string(&req.codex_bin),
                arguments: arguments,
                cwd: copy_string(&req.cwd),
            },
        )
    }

    /// Decides the next step of a wait for any agent of a task: with the time that was
    /// asked for, else with the one of the task. See [`wait_any_step`].
    pub fn subagent_wait_any(
        &self,
        config: &TaskConfig,
        timeout_seconds: Option<u32>,
        infos: &Vec<SubagentInfo>,
        deadline_reached: bool,
    ) -> (r: WaitStep)
        ensures
            first_finished_index(views(infos@), 0) < infos.len() ==> (r matches WaitStep::Finished(
                found,
            ) && found.agent_instance@ == infos@[first_finished_index(
                views(infos@),
                0,
            )].agent_instance@ && found.status == infos@[first_finished_index(
                views(infos@),
                0,
            )].status),
            first_finished_index(views(infos@), 0) == infos.len() && deadline_reached ==> r
                == WaitStep::TimedOut(
                OrchestratorError::WaitAnyTimeout {
                    timeout_seconds: match timeout_seconds {
                        Some(t) => t,
                        None => config.timeout_seconds,
                    },
                },
            ),
            first_finished_index(views(infos@), 0) == infos.len() && !deadline_reached ==> r
                == WaitStep::Poll,
    {
        wait_any_step(infos, deadline_reached, effective_timeout(timeout_seconds, config))
    }

    /// Records the cancellation of an agent, once its process has been dealt with. See
    /// [`finish_cancel`].
    pub fn subagent_cancel(
        &self,
        task: TaskFile,
        log: &Vec<TaskEvent>,
        agent_instance: &str,
        now: Timestamp,
    ) -> (r: Result<Cancellation, OrchestratorError>)
        ensures
            !crate::ids::is_valid_id(agent_instance@) ==> (r matches Err(
                OrchestratorError::InvalidAgentInstance { agent_instance: t },
            ) && t@ == agent_instance@),
            crate::ids::is_valid_id(agent_instance@) && roster_index(
                task@.roster,
                agent_instance@,
                0,
            ) == task@.roster.len() ==> (r matches Err(
                OrchestratorError::SubagentNotFound { agent_instance: t },
            ) && t@ == agent_instance@),
            crate::ids::is_valid_id(agent_instance@) && roster_index(
                task@.roster,
                agent_instance@,
                0,
            ) < task@.roster.len() ==> (r matches Ok(c) && {
                let at = roster_index(task@.roster, agent_instance@, 0);
                &&& c.task@ == with_cancelled_agent(task@, at, now)
                &&& c.changed == (task@.roster[at].state != AgentInstanceState::Failed)
                &&& views(c.events@) == cancellation_events(
                    task@.id,
                    views(log@),
                    agent_instance@,
                    now,
                )
            }),
    {
        finish_cancel(task, log, agent_instance, now)
    }
}

/// Every operation that writes a descriptor keeps the order of its instants: a task
/// that was updated no earlier than it was created is so after a reconciliation, after
/// the start of an agent, after a cancellation and after a controller run took it up,
/// whatever the instant of the operation; and a new task is created and updated at one
/// instant.
pub proof fn law_operations_keep_order(
    task: TaskFileV,
    log: Seq<crate::task::TaskEventV>,
    obs: Seq<crate::reconcile::ObservationV>,
    instance: Seq<char>,
    agent: Seq<char>,
    at: int,
    now: Timestamp,
)
    requires
        task.ordered(),
    ensures
        crate::reconcile::reconciled(task, log, obs, now).task.ordered(),
        crate::supervisor::with_started_agent(task, instance, agent, now).ordered(),
        with_cancelled_agent(task, at, now).ordered(),
        (TaskFileV {
            state: crate::task::TaskState::Working,
            updated_at: task.updated_at.later(now),
            ..task
        }).ordered(),
        crate::orchestrator::created_task(
            task.title,
            task.description,
            task.topology,
            task.milestones,
            task.roster,
            Some(task.config),
            task.id,
            now,
        ).ordered(),
{
}

} // verus!
