//! What holds of every join: the report cites each worker, and both forms of the report
//! say of each worker what its final output says.

use vstd::prelude::*;
use crate::join::{
    evidence_id, evidence_index_of, joined_json, joined_markdown, law_one_evidence_entry_per_worker,
    worker_json, worker_section, worker_sections, JoinedWorkerSummaryV,
};
use crate::json::{lemma_with_keeps_others, lemma_with_then_get, JsonV};
use crate::task::TaskFileV;
use crate::text::{occurs_at, trim};

verus! {

/// `part` stands somewhere in `text`.
pub open spec fn holds(text: Seq<char>, part: Seq<char>) -> bool {
    exists|at: int| occurs_at(text, part, at)
}

/// A part of a text stands in it, after what comes before it.
proof fn lemma_middle(a: Seq<char>, b: Seq<char>, c: Seq<char>)
    ensures
        occurs_at(a + b + c, b, a.len() as int),
        holds(a + b + c, b),
{
    assert((a + b + c).subrange(a.len() as int, (a.len() + b.len()) as int) =~= b);
}

/// What stands in a part of a text stands in the text.
proof fn lemma_within(text: Seq<char>, part: Seq<char>, piece: Seq<char>)
    requires
        holds(text, part),
        holds(part, piece),
    ensures
        holds(text, piece),
{
    let p = choose|at: int| occurs_at(text, part, at);
    let q = choose|at: int| occurs_at(part, piece, at);
    assert(text.subrange(p + q, p + q + piece.len()) =~= text.subrange(
        p,
        p + part.len(),
    ).subrange(q, q + piece.len()));
    assert(occurs_at(text, piece, p + q));
}

/// The section of each of the first `n` workers stands in their sections.
proof fn lemma_section_stands(workers: Seq<JoinedWorkerSummaryV>, n: int, i: int)
    requires
        0 <= i < n <= workers.len(),
    ensures
        holds(worker_sections(workers, n), worker_section(workers[i])),
    decreases n,
{
    let before = worker_sections(workers, n - 1);
    let last = worker_section(workers[n - 1]);
    let none = Seq::<char>::empty();
    if i == n - 1 {
        lemma_middle(before, last, none);
        assert(before + last + none =~= worker_sections(workers, n));
    } else {
        lemma_section_stands(workers, n - 1, i);
        lemma_middle(none, before, last);
        assert(none + before + last =~= worker_sections(workers, n));
        lemma_within(worker_sections(workers, n), before, worker_section(workers[i]));
    }
}

/// What the section of a worker says: its status, the citation of its evidence, and
/// its summary where it has one.
proof fn lemma_section_says(w: JoinedWorkerSummaryV)
    ensures
        holds(worker_section(w), "- status: `"@ + w.status + "`\n"@),
        holds(worker_section(w), "evidence:"@ + evidence_id(w.agent_instance)),
        trim(w.summary).len() > 0 ==> holds(worker_section(w), "- summary: "@ + trim(w.summary)),
{
    reveal_strlit("- evidence: evidence:");
    reveal_strlit("- evidence: ");
    reveal_strlit("evidence:");
    let title = "### "@ + w.agent_instance + " ("@ + w.agent + ")\n\n"@;
    let status = "- status: `"@ + w.status + "`\n"@;
    let cite = "evidence:"@ + evidence_id(w.agent_instance);
    let summary = if trim(w.summary).len() > 0 {
        "- summary: "@ + trim(w.summary) + "\n"@
    } else {
        Seq::empty()
    };
    let questions = if w.questions.len() > 0 {
        "- questions:\n"@ + crate::join::bullet_lines(w.questions, w.questions.len() as int)
    } else {
        Seq::empty()
    };
    let actions = if w.next_actions.len() > 0 {
        "- nextActions:\n"@ + crate::join::bullet_lines(
            w.next_actions,
            w.next_actions.len() as int,
        )
    } else {
        Seq::empty()
    };
    let tail = "\n"@ + summary + questions + actions + "\n"@;
    assert("- evidence: evidence:"@ =~= "- evidence: "@ + "evidence:"@);
    let all = worker_section(w);
    assert(all =~= title + status + ("- evidence: "@ + cite + tail));
    lemma_middle(title, status, "- evidence: "@ + cite + tail);
    assert(all =~= (title + status + "- evidence: "@) + cite + tail);
    lemma_middle(title + status + "- evidence: "@, cite, tail);
    if trim(w.summary).len() > 0 {
        let said = "- summary: "@ + trim(w.summary);
        let head = title + status + "- evidence: "@ + cite + "\n"@;
        let rest = "\n"@ + questions + actions + "\n"@;
        assert(all =~= head + said + rest);
        lemma_middle(head, said, rest);
    }
}

/// The report for readers cites every worker: for each worker it holds the section of
/// that worker, and with it the status of the worker, the citation
/// `evidence:worker-<instance>` of its evidence, and its summary where it has one.
pub proof fn law_report_cites_every_worker(
    task: TaskFileV,
    generated_at: Seq<char>,
    workers: Seq<JoinedWorkerSummaryV>,
    i: int,
)
    requires
        0 <= i < workers.len(),
    ensures
        ({
            let report = joined_markdown(task, generated_at, workers);
            let w = workers[i];
            &&& holds(report, worker_section(w))
            &&& holds(report, "- status: `"@ + w.status + "`\n"@)
            &&& holds(report, "evidence:"@ + evidence_id(w.agent_instance))
            &&& trim(w.summary).len() > 0 ==> holds(report, "- summary: "@ + trim(w.summary))
        }),
{
    let report = joined_markdown(task, generated_at, workers);
    let w = workers[i];
    let sections = worker_sections(workers, workers.len() as int);
    let head = report.take(report.len() - sections.len());
    let none = Seq::<char>::empty();
    assert(report =~= head + sections + none);
    lemma_middle(head, sections, none);
    lemma_section_stands(workers, workers.len() as int, i);
    lemma_within(report, sections, worker_section(w));
    lemma_section_says(w);
    lemma_within(report, worker_section(w), "- status: `"@ + w.status + "`\n"@);
    lemma_within(report, worker_section(w), "evidence:"@ + evidence_id(w.agent_instance));
    if trim(w.summary).len() > 0 {
        lemma_within(report, worker_section(w), "- summary: "@ + trim(w.summary));
    }
}

/// The report for programs lists every worker, in the order of the workers, with its
/// name, its status and its summary as its final output gives them.
pub proof fn law_report_lists_every_worker(
    task_id: Seq<char>,
    generated_at: Seq<char>,
    workers: Seq<JoinedWorkerSummaryV>,
    i: int,
)
    requires
        0 <= i < workers.len(),
    ensures
        ({
            let report = joined_json(task_id, generated_at, workers);
            let w = workers[i];
            &&& report.get("workers"@) is Some
            &&& report.get("workers"@)->0.as_items() is Some
            &&& report.get("workers"@)->0.as_items()->0.len() == workers.len()
            &&& report.get("workers"@)->0.as_items()->0[i] == worker_json(w)
            &&& worker_json(w).text_at("agentInstance"@) == Some(w.agent_instance)
            &&& worker_json(w).text_at("status"@) == Some(w.status)
            &&& worker_json(w).text_at("summary"@) == Some(w.summary)
        }),
{
    reveal_strlit("agent");
    reveal_strlit("agentInstance");
    reveal_strlit("nextActions");
    reveal_strlit("questions");
    reveal_strlit("status");
    reveal_strlit("summary");
    reveal_strlit("generatedAt");
    reveal_strlit("taskId");
    reveal_strlit("workers");
    assert("agentInstance"@.len() == 13 && "nextActions"@.len() == 11);
    assert("questions"@.len() == 9 && "status"@.len() == 6 && "summary"@.len() == 7);
    let w = workers[i];
    let base = crate::json::empty_object();
    let a = base.with("agent"@, JsonV::Str(w.agent));
    lemma_with_then_get(base, "agent"@, JsonV::Str(w.agent));
    let b = a.with("agentInstance"@, JsonV::Str(w.agent_instance));
    lemma_with_then_get(a, "agentInstance"@, JsonV::Str(w.agent_instance));
    let c = b.with("nextActions"@, crate::json::text_array(w.next_actions));
    lemma_with_then_get(b, "nextActions"@, crate::json::text_array(w.next_actions));
    lemma_with_keeps_others(b, "nextActions"@, crate::json::text_array(w.next_actions), "agentInstance"@);
    let d = c.with("questions"@, crate::json::text_array(w.questions));
    lemma_with_then_get(c, "questions"@, crate::json::text_array(w.questions));
    lemma_with_keeps_others(c, "questions"@, crate::json::text_array(w.questions), "agentInstance"@);
    let e = d.with("status"@, JsonV::Str(w.status));
    lemma_with_then_get(d, "status"@, JsonV::Str(w.status));
    lemma_with_keeps_others(d, "status"@, JsonV::Str(w.status), "agentInstance"@);
    let f = e.with("summary"@, JsonV::Str(w.summary));
    lemma_with_then_get(e, "summary"@, JsonV::Str(w.summary));
    lemma_with_keeps_others(e, "summary"@, JsonV::Str(w.summary), "agentInstance"@);
    lemma_with_keeps_others(e, "summary"@, JsonV::Str(w.summary), "status"@);
    assert(f == worker_json(w));
    let docs = JsonV::Array(Seq::new(workers.len(), |k: int| worker_json(workers[k])));
    let g = base.with("generatedAt"@, JsonV::Str(generated_at));
    lemma_with_then_get(base, "generatedAt"@, JsonV::Str(generated_at));
    let t = g.with("taskId"@, JsonV::Str(task_id));
    lemma_with_then_get(g, "taskId"@, JsonV::Str(task_id));
    lemma_with_then_get(t, "workers"@, docs);
}

/// Every entry of the evidence index of a join is a range of runtime events, and is
/// the entry that the report cites for its worker.
pub proof fn law_evidence_entries_are_event_ranges(
    workers: Seq<JoinedWorkerSummaryV>,
    created_at: Seq<char>,
    i: int,
)
    requires
        0 <= i < workers.len(),
    ensures
        evidence_index_of(workers, created_at, workers.len() as int).len() == workers.len(),
        evidence_index_of(workers, created_at, workers.len() as int)[i].kind
            == "runtime-event-range"@,
        evidence_index_of(workers, created_at, workers.len() as int)[i].id == evidence_id(
            workers[i].agent_instance,
        ),
{
    law_one_evidence_entry_per_worker(workers, created_at, workers.len() as int);
    lemma_entry_at(workers, created_at, workers.len() as int, i);
}

/// The entry of the evidence index for a worker is the evidence of that worker.
proof fn lemma_entry_at(
    workers: Seq<JoinedWorkerSummaryV>,
    created_at: Seq<char>,
    n: int,
    i: int,
)
    requires
        0 <= i < n <= workers.len(),
    ensures
        evidence_index_of(workers, created_at, n).len() == n,
        evidence_index_of(workers, created_at, n)[i] == crate::join::evidence_of(
            workers[i],
            created_at,
        ),
    decreases n,
{
    law_one_evidence_entry_per_worker(workers, created_at, n);
    law_one_evidence_entry_per_worker(workers, created_at, n - 1);
    if i < n - 1 {
        lemma_entry_at(workers, created_at, n - 1, i);
    }
}

} // verus!
