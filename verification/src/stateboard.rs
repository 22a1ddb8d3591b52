//! The managed block of the state board: a part of a markdown file that the controller
//! regenerates between two marker lines, leaving the rest of the file as it is.

use vstd::prelude::*;
use crate::controller::{
    ControllerState, JoinTaskResponse, OrchestratorActions, OrchestratorActionsV,
    OrchestratorSubtaskV,
};
use crate::reconcile::{SubagentInfo, SubagentInfoV};
use crate::split::{replace_char, replace_char_text};
use crate::task::{TaskFile, TaskFileV, Timestamp};
use crate::text::views;
use crate::time::{format_rfc3339, rfc3339_text};
use crate::text::{
    append_str, append_text, chars_of, find, find_text, lemma_find_from, occurs_at, string_of,
    sub_text, trim, trim_end, trim_text,
};

verus! {

/// The line that opens the managed block.
pub open spec fn board_begin() -> Seq<char> {
    "<!-- AGENTMESH:STATEBOARD:START -->"@
}

/// The line that closes the managed block.
pub open spec fn board_end() -> Seq<char> {
    "<!-- AGENTMESH:STATEBOARD:END -->"@
}

/// What follows a managed block that opens a new file.
pub open spec fn board_notes() -> Seq<char> {
    "\n## Notes\n\n- You can write human notes below. Controller will preserve this section.\n"@
}

/// The managed block, from its opening marker through its closing marker: the opening
/// line, the content without trailing white space, and the closing marker. The line feed
/// that ends the closing line is no part of the block.
pub open spec fn managed_block(content: Seq<char>) -> Seq<char> {
    board_begin() + seq!['\n'] + trim_end(content) + seq!['\n'] + board_end()
}

/// The file has a managed block: both markers occur, the closing one after the opening
/// one.
pub open spec fn has_block(existing: Seq<char>) -> bool {
    find(existing, board_begin()) is Some && find(existing, board_end()) is Some && find(
        existing,
        board_end(),
    )->0 > find(existing, board_begin())->0
}

/// The file with the managed block set to `content`. In a file that has a block, the
/// text from the opening marker through the closing marker is replaced by the new block,
/// and what stands before the opening marker and after the closing marker is kept as it
/// is. A file without a block gets the block at its start, followed by an empty line and
/// the trimmed file. A file that does not exist yet gets the block and a section for
/// notes.
pub open spec fn upserted_board(existing: Option<Seq<char>>, content: Seq<char>) -> Seq<char> {
    match existing {
        None => managed_block(content) + seq!['\n'] + board_notes(),
        Some(e) => if has_block(e) {
            e.take(find(e, board_begin())->0) + managed_block(content) + e.skip(
                find(e, board_end())->0 + board_end().len(),
            )
        } else {
            managed_block(content) + seq!['\n', '\n'] + trim(e)
        },
    }
}

/// Builds the managed block with its markers.
pub fn build_block(managed_content: &str) -> (out: Vec<char>)
    ensures
        out@ == managed_block(managed_content@),
{
    let content = chars_of(managed_content);
    let body = trim_end_text(&content);
    let mut out = chars_of("<!-- AGENTMESH:STATEBOARD:START -->");
    out.push('\n');
    append_text(&mut out, &body);
    out.push('\n');
    append_str(&mut out, "<!-- AGENTMESH:STATEBOARD:END -->");
    proof {
        assert(out@ =~= managed_block(managed_content@));
    }
    out
}

/// `v` without its trailing white space.
pub fn trim_end_text(v: &Vec<char>) -> (out: Vec<char>)
    ensures
        out@ == trim_end(v@),
{
    let mut hi: usize = v.len();
    proof {
        assert(v@.take(hi as int) =~= v@);
    }
    while hi > 0 && crate::text::is_whitespace(v[hi - 1])
        invariant
            hi <= v.len(),
            trim_end(v@) == trim_end(v@.take(hi as int)),
        decreases hi,
    {
        proof {
            assert(v@.take(hi as int).drop_last() =~= v@.take(hi as int - 1));
        }
        hi -= 1;
    }
    proof {
        assert(v@.take(hi as int) =~= v@.subrange(0, hi as int));
    }
    sub_text(v, 0, hi)
}

/// Sets the managed block of the state board to `managed_content`.
pub fn upsert_managed_block(existing: &Option<String>, managed_content: &str) -> (r: String)
    ensures
        r@ == upserted_board(crate::text::opt_view(*existing), managed_content@),
{
    let mut out = build_block(managed_content);
    let existing = match existing {
        None => {
            out.push('\n');
            append_str(
                &mut out,
                "\n## Notes\n\n- You can write human notes below. Controller will preserve this section.\n",
            );
            return string_of(&out);
        },
        Some(e) => chars_of(e.as_str()),
    };
    let begin = chars_of("<!-- AGENTMESH:STATEBOARD:START -->");
    let end = chars_of("<!-- AGENTMESH:STATEBOARD:END -->");
    match find_text(&existing, &begin) {
        Some(s) => match find_text(&existing, &end) {
            Some(t) => {
                if t > s {
                    proof {
                        lemma_find_from(existing@, begin@, 0);
                        lemma_find_from(existing@, end@, 0);
                    }
                    let mut whole = sub_text(&existing, 0, s);
                    append_text(&mut whole, &out);
                    let n = existing.len();
                    let rest = sub_text(&existing, t + end.len(), n);
                    append_text(&mut whole, &rest);
                    proof {
                        assert(existing@.take(s as int) =~= existing@.subrange(0, s as int));
                        assert(existing@.skip(t + end@.len()) =~= existing@.subrange(
                            t + end@.len(),
                            existing@.len() as int,
                        ));
                    }
                    return string_of(&whole);
                }
            },
            None => {},
        },
        None => {},
    }
    out.push('\n');
    out.push('\n');
    let kept = trim_text(&existing);
    append_text(&mut out, &kept);
    proof {
        assert(out@ =~= managed_block(managed_content@) + seq!['\n', '\n'] + trim(existing@));
    }
    string_of(&out)
}

/// A regeneration leaves the text outside the markers as it was, byte for byte: in a
/// file that has a managed block, the text before the opening marker and the text after
/// the closing marker are the same before and after the regeneration. Between them stands
/// the new block, which begins with the opening marker and ends with the closing marker,
/// so that the text after the closing marker of the result is the text after the closing
/// marker of the file.
pub proof fn law_outside_of_block_is_kept(existing: Seq<char>, content: Seq<char>)
    requires
        has_block(existing),
    ensures
        ({
            let s = find(existing, board_begin())->0;
            let t = find(existing, board_end())->0;
            let r = upserted_board(Some(existing), content);
            let closing = s + managed_block(content).len() - board_end().len();
            &&& 0 <= s < t
            &&& t + board_end().len() <= existing.len()
            &&& r.take(s) == existing.take(s)
            &&& occurs_at(r, board_begin(), s)
            &&& occurs_at(r, board_end(), closing)
            &&& r.subrange(s, closing + board_end().len()) == managed_block(content)
            &&& r.skip(closing + board_end().len()) == existing.skip(t + board_end().len())
        }),
{
    let s = find(existing, board_begin())->0;
    let t = find(existing, board_end())->0;
    lemma_find_from(existing, board_begin(), 0);
    lemma_find_from(existing, board_end(), 0);
    let r = upserted_board(Some(existing), content);
    let block = managed_block(content);
    let closing = s + block.len() - board_end().len();
    assert(r.take(s) =~= existing.take(s));
    assert(r.skip(s + block.len()) =~= existing.skip(t + board_end().len()));
    assert(r.subrange(s, s + block.len()) =~= block);
    assert(r.subrange(s, s + board_begin().len()) =~= board_begin());
    assert(r.subrange(closing, closing + board_end().len()) =~= board_end());
}

/// What the markers are made of: each begins with `<` and holds no other, neither holds
/// a line feed, and they differ in the letter after their common beginning.
proof fn lemma_marker_chars()
    ensures
        board_begin().len() == 35,
        board_end().len() == 33,
        board_begin()[0] == '<',
        board_end()[0] == '<',
        board_begin()[26] == 'S',
        board_end()[26] == 'E',
        forall|k: int| 1 <= k < 35 ==> #[trigger] board_begin()[k] != '<',
        forall|k: int| 1 <= k < 33 ==> #[trigger] board_end()[k] != '<',
        forall|k: int| 0 <= k < 33 ==> #[trigger] board_end()[k] != '\n',
        forall|k: int| 0 <= k < 35 ==> #[trigger] board_begin()[k] != '\n',
{
    reveal_strlit("<!-- AGENTMESH:STATEBOARD:START -->");
    reveal_strlit("<!-- AGENTMESH:STATEBOARD:END -->");
}

/// Where a pattern occurs at `at` and nowhere before, that is where it is found.
proof fn lemma_found_at(text: Seq<char>, pat: Seq<char>, at: int)
    requires
        occurs_at(text, pat, at),
        forall|j: int| 0 <= j < at ==> !occurs_at(text, pat, j),
    ensures
        find(text, pat) == Some(at),
{
    lemma_find_from(text, pat, 0);
}

/// After a regeneration the file has one managed block at the place of the old one: the
/// first opening marker of the result is that of the new block, and the first closing
/// marker of the result is that of the new block. This holds where the new content holds
/// neither marker.
pub proof fn law_new_block_is_the_block(existing: Seq<char>, content: Seq<char>)
    requires
        has_block(existing),
        !crate::text::contains(trim_end(content), board_begin()),
        !crate::text::contains(trim_end(content), board_end()),
    ensures
        ({
            let r = upserted_board(Some(existing), content);
            let s = find(existing, board_begin())->0;
            &&& find(r, board_begin()) == Some(s)
            &&& find(r, board_end()) == Some(s + managed_block(content).len() - board_end().len())
            &&& has_block(r)
        }),
{
    let s = find(existing, board_begin())->0;
    let t = find(existing, board_end())->0;
    lemma_find_from(existing, board_begin(), 0);
    lemma_find_from(existing, board_end(), 0);
    lemma_marker_chars();
    let r = upserted_board(Some(existing), content);
    let c = trim_end(content);
    let block = managed_block(content);
    let closing = s + block.len() - board_end().len();
    lemma_find_from(c, board_begin(), 0);
    lemma_find_from(c, board_end(), 0);
    law_outside_of_block_is_kept(existing, content);
    assert(block.len() == 35 + 1 + c.len() + 1 + 33);
    assert forall|i: int| 0 <= i < s implies r[i] == existing[i] by {
        assert(r.take(s)[i] == existing.take(s)[i]);
    }
    assert forall|i: int| 0 <= i < block.len() implies r[s + i] == block[i] by {
        assert(r.subrange(s, closing + board_end().len())[i] == block[i]);
    }
    assert(r[s] == '<');
    assert forall|j: int| 0 <= j < s implies !occurs_at(r, board_begin(), j) by {
        if occurs_at(r, board_begin(), j) {
            let hit = r.subrange(j, j + 35);
            if j + 35 <= s {
                assert(existing.subrange(j, j + 35) =~= hit);
                assert(occurs_at(existing, board_begin(), j));
            } else {
                assert(hit[s - j] == r[s]);
                assert(board_begin()[s - j] != '<');
            }
        }
    }
    lemma_found_at(r, board_begin(), s);
    assert forall|j: int| 0 <= j < closing implies !occurs_at(r, board_end(), j) by {
        if occurs_at(r, board_end(), j) {
            let hit = r.subrange(j, j + 33);
            if j + 33 <= s {
                assert(existing.subrange(j, j + 33) =~= hit);
                assert(occurs_at(existing, board_end(), j));
            } else if j < s {
                assert(hit[s - j] == r[s]);
                assert(board_end()[s - j] != '<');
            } else if j == s {
                assert(hit[26] == r[s + 26]);
                assert(block[26] == board_begin()[26]);
            } else if j < s + 35 {
                assert(hit[0] == r[j]);
                assert(block[j - s] == board_begin()[j - s]);
            } else if j == s + 35 {
                assert(hit[0] == r[j]);
                assert(block[35] == '\n');
            } else if j < s + 36 + c.len() {
                let q = j - (s + 36);
                if q + 33 <= c.len() {
                    assert forall|i: int| 0 <= i < 33 implies c.subrange(q, q + 33)[i] == hit[i] by {
                        assert(hit[i] == r[j + i]);
                        assert(block[36 + q + i] == c[q + i]);
                    }
                    assert(c.subrange(q, q + 33) =~= hit);
                    assert(occurs_at(c, board_end(), q));
                } else {
                    let k = c.len() - q;
                    assert(hit[k] == r[j + k]);
                    assert(block[36 + c.len() as int] == '\n');
                    assert(board_end()[k] != '\n');
                }
            } else {
                assert(j == s + 36 + c.len());
                assert(hit[0] == r[j]);
                assert(block[36 + c.len() as int] == '\n');
            }
        }
    }
    lemma_found_at(r, board_end(), closing);
}

/// The pattern stands in the text at `at` and nowhere else.
pub open spec fn stands_once(text: Seq<char>, pat: Seq<char>, at: int) -> bool {
    occurs_at(text, pat, at) && forall|j: int| occurs_at(text, pat, j) ==> j == at
}

/// A file with one pair of markers has one pair of markers after a regeneration, at the
/// edges of the new block, and what stood between the old markers is gone: where each
/// marker stands once in the file, the opening one first, and the new content holds
/// neither, each marker stands once in the result.
pub proof fn law_one_pair_remains(existing: Seq<char>, content: Seq<char>)
    requires
        has_block(existing),
        stands_once(existing, board_begin(), find(existing, board_begin())->0),
        stands_once(existing, board_end(), find(existing, board_end())->0),
        !crate::text::contains(trim_end(content), board_begin()),
        !crate::text::contains(trim_end(content), board_end()),
    ensures
        ({
            let r = upserted_board(Some(existing), content);
            let s = find(existing, board_begin())->0;
            &&& stands_once(r, board_begin(), s)
            &&& stands_once(r, board_end(), s + managed_block(content).len() - board_end().len())
            &&& r.subrange(s, s + managed_block(content).len()) == managed_block(content)
        }),
{
    let s = find(existing, board_begin())->0;
    let t = find(existing, board_end())->0;
    lemma_find_from(existing, board_begin(), 0);
    lemma_find_from(existing, board_end(), 0);
    lemma_marker_chars();
    let r = upserted_board(Some(existing), content);
    let c = trim_end(content);
    let block = managed_block(content);
    let closing = s + block.len() - board_end().len();
    let edge = s + block.len();
    lemma_find_from(c, board_begin(), 0);
    lemma_find_from(r, board_begin(), 0);
    lemma_find_from(r, board_end(), 0);
    law_outside_of_block_is_kept(existing, content);
    law_new_block_is_the_block(existing, content);
    assert(block.len() == 35 + 1 + c.len() + 1 + 33);
    assert forall|i: int| 0 <= i < block.len() implies r[s + i] == block[i] by {
        assert(r.subrange(s, closing + board_end().len())[i] == block[i]);
    }
    assert forall|i: int| edge <= i < r.len() implies r[i] == existing[i - edge + t + 33] by {
        assert(r.skip(edge)[i - edge] == existing.skip(t + 33)[i - edge]);
    }
    assert(r.len() - edge == existing.len() - (t + 33));
    assert forall|j: int| occurs_at(r, board_begin(), j) implies j == s by {
        let hit = r.subrange(j, j + 35);
        if j < s {
        } else if j == s {
        } else if j < s + 35 {
            assert(hit[0] == r[j]);
            assert(block[j - s] == board_begin()[j - s]);
        } else if j == s + 35 {
            assert(hit[0] == r[j]);
            assert(block[35] == '\n');
        } else if j < s + 36 + c.len() {
            let q = j - (s + 36);
            if q + 35 <= c.len() {
                assert forall|i: int| 0 <= i < 35 implies c.subrange(q, q + 35)[i] == hit[i] by {
                    assert(hit[i] == r[j + i]);
                    assert(block[36 + q + i] == c[q + i]);
                }
                assert(c.subrange(q, q + 35) =~= hit);
                assert(occurs_at(c, board_begin(), q));
            } else {
                let k = c.len() - q;
                assert(hit[k] == r[j + k]);
                assert(block[36 + c.len() as int] == '\n');
                assert(board_begin()[k] != '\n');
            }
        } else if j == s + 36 + c.len() {
            assert(hit[0] == r[j]);
            assert(block[36 + c.len() as int] == '\n');
        } else if j == closing {
            assert(hit[26] == r[closing + 26]);
            assert(block[closing - s + 26] == board_end()[26]);
        } else if j < edge {
            assert(hit[0] == r[j]);
            assert(block[j - s] == board_end()[j - closing]);
        } else {
            let at = j - edge + t + 33;
            assert forall|i: int| 0 <= i < 35 implies existing.subrange(at, at + 35)[i] == hit[i] by {
                assert(hit[i] == r[j + i]);
            }
            assert(existing.subrange(at, at + 35) =~= hit);
            assert(occurs_at(existing, board_begin(), at));
        }
    }
    assert forall|j: int| occurs_at(r, board_end(), j) implies j == closing by {
        let hit = r.subrange(j, j + 33);
        if j < closing {
        } else if j == closing {
        } else if j < edge {
            assert(hit[0] == r[j]);
            assert(block[j - s] == board_end()[j - closing]);
        } else {
            let at = j - edge + t + 33;
            assert forall|i: int| 0 <= i < 33 implies existing.subrange(at, at + 33)[i] == hit[i] by {
                assert(hit[i] == r[j + i]);
            }
            assert(existing.subrange(at, at + 33) =~= hit);
            assert(occurs_at(existing, board_end(), at));
        }
    }
}

/// Regenerating a block with the content that it has changes nothing: a file whose block
/// was just set to `content` is the same file after the block is set to `content` again,
/// where the content holds neither marker.
pub proof fn law_regeneration_is_stable(existing: Seq<char>, content: Seq<char>)
    requires
        has_block(existing),
        !crate::text::contains(trim_end(content), board_begin()),
        !crate::text::contains(trim_end(content), board_end()),
    ensures
        upserted_board(Some(upserted_board(Some(existing), content)), content) == upserted_board(
            Some(existing),
            content,
        ),
{
    let s = find(existing, board_begin())->0;
    let t = find(existing, board_end())->0;
    lemma_find_from(existing, board_begin(), 0);
    lemma_find_from(existing, board_end(), 0);
    law_new_block_is_the_block(existing, content);
    let r = upserted_board(Some(existing), content);
    let block = managed_block(content);
    assert(r.take(s) =~= existing.take(s));
    assert(r.skip(s + block.len()) =~= existing.skip(t + board_end().len()));
    assert(upserted_board(Some(r), content) =~= r);
}

/// The text with a backslash before every backtick.
pub open spec fn markdown_escaped(value: Seq<char>) -> Seq<char> {
    replace_char(value, '`', seq!['\\', '`'])
}

/// Escapes the backticks of a text for inline markdown.
pub fn escape_markdown_inline(value: &str) -> (r: String)
    ensures
        r@ == markdown_escaped(value@),
{
    let v = chars_of(value);
    let mut rep: Vec<char> = Vec::new();
    rep.push('\\');
    rep.push('`');
    proof {
        assert(rep@ =~= seq!['\\', '`']);
    }
    let out = replace_char_text(&v, '`', &rep);
    string_of(&out)
}

/// The name of the status of the agent `instance` among the first `n` agents: the one
/// of the last agent of that name, and `unknown` where there is none.
pub open spec fn status_name_of(infos: Seq<SubagentInfoV>, instance: Seq<char>, n: int) -> Seq<
    char,
>
    decreases n,
{
    if n <= 0 || n > infos.len() {
        "unknown"@
    } else if infos[n - 1].agent_instance == instance {
        infos[n - 1].status.name()
    } else {
        status_name_of(infos, instance, n - 1)
    }
}

/// Looks up the name of the status of an agent.
pub fn status_name(infos: &Vec<SubagentInfo>, instance: &Vec<char>) -> (r: &'static str)
    ensures
        r@ == status_name_of(views(infos@), instance@, infos.len() as int),
{
    let mut i: usize = infos.len();
    while i > 0
        invariant
            i <= infos.len(),
            status_name_of(views(infos@), instance@, infos.len() as int) == status_name_of(
                views(infos@),
                instance@,
                i as int,
            ),
        decreases i,
    {
        if crate::text::string_is(&infos[i - 1].agent_instance, instance) {
            return infos[i - 1].status.as_str();
        }
        i -= 1;
    }
    "unknown"
}

/// The line of the state board for a subtask.
pub open spec fn subtask_line(t: OrchestratorSubtaskV, infos: Seq<SubagentInfoV>) -> Seq<char> {
    "- `"@ + t.resolved_instance() + "` agent=`"@ + t.agent + "` adapter=`"@ + t.adapter
        + "` status=`"@ + status_name_of(infos, t.resolved_instance(), infos.len() as int)
        + "` title=\""@ + markdown_escaped(t.title) + "\"\n"@
}

/// The lines of the state board for the first `n` subtasks.
pub open spec fn subtask_lines(tasks: Seq<OrchestratorSubtaskV>, infos: Seq<SubagentInfoV>, n: int)
    -> Seq<char>
    decreases n,
{
    if n <= 0 || n > tasks.len() {
        Seq::empty()
    } else {
        subtask_lines(tasks, infos, n - 1) + subtask_line(tasks[n - 1], infos)
    }
}

/// The lines of the state board that name the joined reports, where there are any.
pub open spec fn joined_lines(joined: Option<JoinTaskResponse>) -> Seq<char> {
    match joined {
        Some(j) => "- joinedSummaryMdPath: `"@ + j.joined_summary_md@ + "`\n"@
            + "- joinedSummaryJsonPath: `"@ + j.joined_summary_json@ + "`\n"@,
        None => Seq::empty(),
    }
}

/// The content of the managed block of the state board: the head of the task, the state
/// of the controller, a line for each subtask with its status, and the paths of the key
/// artifacts.
pub open spec fn board_content(
    task: TaskFileV,
    state: ControllerState,
    updated_at: Seq<char>,
    actions: OrchestratorActionsV,
    infos: Seq<SubagentInfoV>,
    joined: Option<JoinTaskResponse>,
) -> Seq<char> {
    "# StateBoard\n\n"@ + "- task: `"@ + task.id + "`\n"@ + "- title: "@ + task.title + "\n"@
        + "- controllerState: `"@ + state.name() + "`\n"@ + "- updatedAt: `"@ + updated_at
        + "`\n"@ + "- sessionGoal: "@ + trim(actions.session_goal) + "\n\n"@ + "## Subtasks\n\n"@
        + subtask_lines(actions.tasks, infos, actions.tasks.len() as int) + "\n"@
        + "## Key Artifacts\n\n"@ + "- joinedSummaryMd: `./shared/reports/joined-summary.md`\n"@
        + "- joinedSummaryJson: `./shared/reports/joined-summary.json`\n"@
        + "- evidenceIndex: `./shared/evidence/index.json`\n"@
        + "- humanNotes: `./shared/human-notes.md`\n"@ + joined_lines(joined) + "\n"@
}

/// Writes the content of the managed block of the state board.
pub fn render_state_board(
    task: &TaskFile,
    state: ControllerState,
    updated_at: &str,
    actions: &OrchestratorActions,
    infos: &Vec<SubagentInfo>,
    joined: Option<&JoinTaskResponse>,
) -> (r: String)
    ensures
        r@ == board_content(
            task@,
            state,
            updated_at@,
            actions@,
            views(infos@),
            match joined {
                Some(j) => Some(*j),
                None => None,
            },
        ),
{
    let mut lines: Vec<char> = Vec::new();
    let mut i: usize = 0;
    while i < actions.tasks.len()
        invariant
            i <= actions.tasks.len(),
            lines@ == subtask_lines(views(actions.tasks@), views(infos@), i as int),
        decreases actions.tasks.len() - i,
    {
        let t = &actions.tasks[i];
        let instance = chars_of(t.resolved_agent_instance().as_str());
        let title = escape_markdown_inline(t.title.as_str());
        let mut line = chars_of("- `");
        append_text(&mut line, &instance);
        append_str(&mut line, "` agent=`");
        append_str(&mut line, t.agent.as_str());
        append_str(&mut line, "` adapter=`");
        append_str(&mut line, t.adapter.as_str());
        append_str(&mut line, "` status=`");
        append_str(&mut line, status_name(infos, &instance));
        append_str(&mut line, "` title=\"");
        append_str(&mut line, title.as_str());
        append_str(&mut line, "\"\n");
        append_text(&mut lines, &line);
        i += 1;
    }
    let mut paths: Vec<char> = Vec::new();
    match joined {
        Some(j) => {
            append_str(&mut paths, "- joinedSummaryMdPath: `");
            append_str(&mut paths, j.joined_summary_md.as_str());
            append_str(&mut paths, "`\n");
            let mut second = chars_of("- joinedSummaryJsonPath: `");
            append_str(&mut second, j.joined_summary_json.as_str());
            append_str(&mut second, "`\n");
            let ghost first = paths@;
            append_text(&mut paths, &second);
            proof {
                assert(paths@ =~= "- joinedSummaryMdPath: `"@ + j.joined_summary_md@ + "`\n"@
                    + "- joinedSummaryJsonPath: `"@ + j.joined_summary_json@ + "`\n"@);
            }
        },
        None => {},
    }
    let goal = chars_of(actions.session_goal.as_str());
    let goal = trim_text(&goal);
    let mut out = chars_of("# StateBoard\n\n");
    append_str(&mut out, "- task: `");
    append_str(&mut out, task.id.as_str());
    append_str(&mut out, "`\n");
    append_str(&mut out, "- title: ");
    append_str(&mut out, task.title.as_str());
    append_str(&mut out, "\n");
    append_str(&mut out, "- controllerState: `");
    append_str(&mut out, state.as_str());
    append_str(&mut out, "`\n");
    append_str(&mut out, "- updatedAt: `");
    append_str(&mut out, updated_at);
    append_str(&mut out, "`\n");
    append_str(&mut out, "- sessionGoal: ");
    append_text(&mut out, &goal);
    append_str(&mut out, "\n\n");
    append_str(&mut out, "## Subtasks\n\n");
    append_text(&mut out, &lines);
    append_str(&mut out, "\n");
    append_str(&mut out, "## Key Artifacts\n\n");
    append_str(&mut out, "- joinedSummaryMd: `./shared/reports/joined-summary.md`\n");
    append_str(&mut out, "- joinedSummaryJson: `./shared/reports/joined-summary.json`\n");
    append_str(&mut out, "- evidenceIndex: `./shared/evidence/index.json`\n");
    append_str(&mut out, "- humanNotes: `./shared/human-notes.md`\n");
    append_text(&mut out, &paths);
    append_str(&mut out, "\n");
    string_of(&out)
}

/// Regenerates the state board of a task: the managed block is set to the content for
/// the given state and the rest of the file is kept, as `upsert_managed_block` does it.
pub fn write_state_board(
    existing: &Option<String>,
    task: &TaskFile,
    state: ControllerState,
    now: Timestamp,
    actions: &OrchestratorActions,
    infos: &Vec<SubagentInfo>,
    joined: Option<&JoinTaskResponse>,
) -> (r: String)
    ensures
        r@ == upserted_board(
            crate::text::opt_view(*existing),
            board_content(
                task@,
                state,
                rfc3339_text(now.secs, now.nanos),
                actions@,
                views(infos@),
                match joined {
                    Some(j) => Some(*j),
                    None => None,
                },
            ),
        ),
{
    let at = format_rfc3339(now);
    let content = render_state_board(task, state, at.as_str(), actions, infos, joined);
    upsert_managed_block(existing, content.as_str())
}

} // verus!
