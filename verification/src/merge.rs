//! Merging the activity that a rollout log tells into the items that the authoritative
//! side holds for a turn.

use vstd::prelude::*;
use std::collections::VecDeque;
use crate::activity::{
    extract_text_list, is_missing, item_key, item_key_of, item_type_key, item_type_of,
    placeholder_key, rollout_placeholder_kind, text_list_of, value_is_missing,
};
use crate::json::{
    lemma_list_view, lemma_list_view_is, lemma_list_view_push, list_view, Json, JsonV,
};
use crate::split::{collapse_spaces, collapse_whitespace, join, join_texts, lemma_texts_push, texts};
use crate::text::{
    chars_of, contains, contains_text, copy_string, opt_view, string_is, text_eq, views,
};

verus! {

/// The item is a reasoning.
pub open spec fn is_reasoning(item: JsonV) -> bool {
    item_type_of(item) == Some("reasoning"@)
}

/// Tells whether an item is a reasoning.
pub fn is_reasoning_item(item: &Json) -> (r: bool)
    ensures
        r == is_reasoning(item@),
{
    let reasoning = chars_of("reasoning");
    match item_type_key(item) {
        Some(t) => string_is(&t, &reasoning),
        None => false,
    }
}

/// The text of a reasoning in the form in which texts are compared: the texts of its
/// summary and of its content, one on each line, with every run of white space as one
/// blank. An item that is no reasoning, and a reasoning without texts, has none.
pub open spec fn reasoning_text(item: JsonV) -> Option<Seq<char>> {
    let summary = text_list_of(item.get("summary"@));
    let content = text_list_of(item.get("content"@));
    if !is_reasoning(item) || (summary.len() == 0 && content.len() == 0) {
        None
    } else {
        Some(collapse_spaces(join(summary + content, seq!['\n'])))
    }
}

/// Reads the text of a reasoning in the form in which texts are compared.
pub fn extract_reasoning_text(item: &Json) -> (r: Option<Vec<char>>)
    ensures
        match r {
            Some(t) => reasoning_text(item@) == Some(t@),
            None => reasoning_text(item@) is None,
        },
{
    if !is_reasoning_item(item) {
        return None;
    }
    let summary = extract_text_list(item.get("summary"));
    let content = extract_text_list(item.get("content"));
    if summary.len() == 0 && content.len() == 0 {
        return None;
    }
    let mut all: Vec<Vec<char>> = Vec::new();
    proof {
        assert(texts(all@) =~= Seq::<Seq<char>>::empty());
    }
    let mut i: usize = 0;
    while i < summary.len()
        invariant
            i <= summary.len(),
            texts(all@) == views(summary@).take(i as int),
        decreases summary.len() - i,
    {
        let c = chars_of(summary[i].as_str());
        proof {
            lemma_texts_push(all@, c);
            assert(views(summary@).take(i as int + 1) =~= views(summary@).take(i as int).push(
                summary@[i as int]@,
            ));
        }
        all.push(c);
        i += 1;
    }
    proof {
        assert(views(summary@).take(summary.len() as int) =~= views(summary@));
        assert(views(summary@) + views(content@).take(0) =~= views(summary@));
    }
    let mut j: usize = 0;
    while j < content.len()
        invariant
            j <= content.len(),
            texts(all@) == views(summary@) + views(content@).take(j as int),
        decreases content.len() - j,
    {
        let c = chars_of(content[j].as_str());
        proof {
            lemma_texts_push(all@, c);
            assert(views(summary@) + views(content@).take(j as int + 1) =~= (views(summary@)
                + views(content@).take(j as int)).push(content@[j as int]@));
        }
        all.push(c);
        j += 1;
    }
    proof {
        assert(views(content@).take(content.len() as int) =~= views(content@));
    }
    let mut sep: Vec<char> = Vec::new();
    sep.push('\n');
    proof {
        assert(sep@ =~= seq!['\n']);
    }
    let combined = join_texts(&all, &sep);
    Some(collapse_whitespace(&combined))
}

/// The least length of a text that takes part in the comparison of reasonings.
pub const MIN_COMPARE_LEN: usize = 8;

/// Two reasonings that stand next to each other say the same: both have a text of at
/// least eight characters, and one of the texts holds the other.
pub open spec fn same_reasoning(prev: JsonV, curr: JsonV) -> bool {
    match (reasoning_text(prev), reasoning_text(curr)) {
        (Some(a), Some(b)) => a.len() >= MIN_COMPARE_LEN && b.len() >= MIN_COMPARE_LEN && (
        contains(a, b) || contains(b, a)),
        _ => false,
    }
}

/// The items with one more item taken in: an item that says the same as the last one is
/// dropped where its text is no longer than that of the last one, and takes the place of
/// the last one where it is longer.
pub open spec fn deduped_step(out: Seq<JsonV>, item: JsonV) -> Seq<JsonV> {
    if out.len() > 0 && same_reasoning(out.last(), item) {
        if reasoning_text(out.last())->0.len() >= reasoning_text(item)->0.len() {
            out
        } else {
            out.drop_last().push(item)
        }
    } else {
        out.push(item)
    }
}

/// The first `n` items without reasonings that repeat the one before them.
pub open spec fn deduped(items: Seq<JsonV>, n: int) -> Seq<JsonV>
    decreases n,
{
    if n <= 0 || n > items.len() {
        Seq::empty()
    } else {
        deduped_step(deduped(items, n - 1), items[n - 1])
    }
}

/// Of two adjacent reasonings that say the same, only the longer one survives; where
/// they are of one length, the first.
pub proof fn law_adjacent_duplicate_keeps_longer(first: JsonV, second: JsonV)
    requires
        same_reasoning(first, second),
    ensures
        deduped(seq![first, second], 2) == seq![
            if reasoning_text(first)->0.len() >= reasoning_text(second)->0.len() {
                first
            } else {
                second
            },
        ],
{
    let items = seq![first, second];
    reveal_with_fuel(deduped, 3);
    assert(deduped(items, 0) =~= Seq::<JsonV>::empty());
    assert(deduped(items, 1) =~= seq![first]);
    assert(seq![first].drop_last().push(second) =~= seq![second]);
}

/// Two adjacent items that do not say the same both survive.
pub proof fn law_distinct_neighbours_survive(first: JsonV, second: JsonV)
    requires
        !same_reasoning(first, second),
    ensures
        deduped(seq![first, second], 2) == seq![first, second],
{
    let items = seq![first, second];
    reveal_with_fuel(deduped, 3);
    assert(deduped(items, 0) =~= Seq::<JsonV>::empty());
    assert(deduped(items, 1) =~= seq![first]);
    assert(seq![first].push(second) =~= items);
}

/// Drops the reasonings that repeat the one before them, keeping the longer of the two.
pub fn dedupe_adjacent_reasoning(items: Vec<Json>) -> (out: Vec<Json>)
    ensures
        list_view(out@) == deduped(list_view(items@), items.len() as int),
{
    let ghost input = list_view(items@);
    let mut out: Vec<Json> = Vec::new();
    let mut done: usize = 0;
    proof {
        lemma_list_view(items@);
        assert(list_view(out@) =~= Seq::<JsonV>::empty());
    }
    while done < items.len()
        invariant
            done <= items.len(),
            input == list_view(items@),
            input.len() == items.len(),
            forall|j: int| 0 <= j < items.len() ==> #[trigger] input[j] == items@[j]@,
            list_view(out@) == deduped(input, done as int),
        decreases items.len() - done,
    {
        let item = items[done].copy();
        proof {
            assert(input[done as int] == items@[done as int]@);
            lemma_list_view(out@);
        }
        let mut keep = true;
        let mut replace = false;
        if out.len() > 0 {
            let prev = &out[out.len() - 1];
            proof {
                assert(list_view(out@).last() == prev@);
            }
            match (extract_reasoning_text(prev), extract_reasoning_text(&item)) {
                (Some(a), Some(b)) => {
                    if a.len() >= MIN_COMPARE_LEN && b.len() >= MIN_COMPARE_LEN && (contains_text(
                        &a,
                        &b,
                    ) || contains_text(&b, &a)) {
                        if a.len() >= b.len() {
                            keep = false;
                        } else {
                            replace = true;
                        }
                    }
                },
                _ => {},
            }
        }
        if keep {
            if replace {
                let ghost prior = out@;
                let dropped = out.pop();
                proof {
                    lemma_list_view(out@);
                    lemma_list_view_is(out@, list_view(prior).drop_last());
                }
            }
            proof {
                lemma_list_view_push(out@, item);
            }
            out.push(item);
        }
        done += 1;
    }
    out
}

/// Whether the status of the rollout replaces the status of the base: it does where the
/// rollout has a status and the base has none or is in progress; it does not where the
/// base is completed, failed or declined; and for any other status of the base it does
/// unless the rollout is in progress.
pub open spec fn updates_status(base: Option<JsonV>, rollout: Option<JsonV>) -> bool {
    let r = match rollout {
        Some(v) => v.as_text(),
        None => None,
    };
    let b = match base {
        Some(v) => v.as_text(),
        None => None,
    };
    match r {
        None => false,
        Some(rs) => match b {
            None => true,
            Some(bs) => if bs == "inProgress"@ {
                true
            } else if bs == "completed"@ || bs == "failed"@ || bs == "declined"@ {
                false
            } else {
                rs != "inProgress"@
            },
        },
    }
}

/// Tells whether the status of the rollout replaces the status of the base.
pub fn should_update_status(base_status: Option<&Json>, rollout_status: Option<&Json>) -> (r: bool)
    ensures
        r == updates_status(
            match base_status {
                Some(v) => Some(v@),
                None => None,
            },
            match rollout_status {
                Some(v) => Some(v@),
                None => None,
            },
        ),
{
    let rs = match rollout_status {
        Some(v) => match v.as_str() {
            Some(s) => s,
            None => {
                return false;
            },
        },
        None => {
            return false;
        },
    };
    let bs = match base_status {
        Some(v) => match v.as_str() {
            Some(s) => s,
            None => {
                return true;
            },
        },
        None => {
            return true;
        },
    };
    let in_progress = chars_of("inProgress");
    let completed = chars_of("completed");
    let failed = chars_of("failed");
    let declined = chars_of("declined");
    if string_is(bs, &in_progress) {
        true
    } else if string_is(bs, &completed) || string_is(bs, &failed) || string_is(bs, &declined) {
        false
    } else {
        !string_is(rs, &in_progress)
    }
}

/// The object with the member `key` taken from the rollout, where the base misses it and
/// the rollout has it.
pub open spec fn filled(merged: JsonV, base: JsonV, rollout: JsonV, key: Seq<char>) -> JsonV {
    if is_missing(base.get(key)) && rollout.get(key) is Some {
        merged.with(key, rollout.get(key)->0)
    } else {
        merged
    }
}

/// The object with the status of the rollout, where that replaces the status of the
/// base.
pub open spec fn with_status(merged: JsonV, base: JsonV, rollout: JsonV) -> JsonV {
    if updates_status(base.get("status"@), rollout.get("status"@)) {
        merged.with("status"@, rollout.get("status"@)->0)
    } else {
        merged
    }
}

/// Takes the member `key` from the rollout where the base misses it.
fn fill(merged: &mut Json, base: &Json, rollout: &Json, key: &str)
    ensures
        final(merged)@ == filled(old(merged)@, base@, rollout@, key@),
{
    if value_is_missing(base.get(key)) {
        match rollout.get(key) {
            Some(v) => {
                merged.set(key, v.copy());
            },
            None => {},
        }
    }
}

/// Takes the status of the rollout where that replaces the status of the base.
fn fill_status(merged: &mut Json, base: &Json, rollout: &Json)
    ensures
        final(merged)@ == with_status(old(merged)@, base@, rollout@),
{
    if should_update_status(base.get("status"), rollout.get("status")) {
        match rollout.get("status") {
            Some(v) => {
                merged.set("status", v.copy());
            },
            None => {},
        }
    }
}

/// The first index at or after `from` of a change of the file `path`; the number of
/// changes if there is none.
pub open spec fn change_index(changes: Seq<JsonV>, path: Seq<char>, from: int) -> int
    decreases changes.len() - from,
{
    if from < 0 || from >= changes.len() {
        changes.len() as int
    } else if changes[from].text_at("path"@) == Some(path) {
        from
    } else {
        change_index(changes, path, from + 1)
    }
}

/// A change of the base with what it misses taken from the change of the rollout for
/// the same file: its diff, and whether that has line numbers.
pub open spec fn merged_change(change: JsonV, rollout: Seq<JsonV>) -> JsonV {
    match change.text_at("path"@) {
        None => change,
        Some(path) => {
            let at = change_index(rollout, path, 0);
            if (!is_missing(change.get("diff"@)) && !is_missing(
                change.get("lineNumbersAvailable"@),
            )) || !(0 <= at < rollout.len()) {
                change
            } else {
                filled(
                    filled(change, change, rollout[at], "diff"@),
                    change,
                    rollout[at],
                    "lineNumbersAvailable"@,
                )
            }
        },
    }
}

/// The changes of a file change, merged: those of the rollout where the base has none,
/// else those of the base, each with what it misses; the base as it is where either side
/// is no array.
pub open spec fn merged_changes(base: JsonV, rollout: JsonV) -> JsonV {
    match (base, rollout) {
        (JsonV::Array(b), JsonV::Array(r)) => if b.len() == 0 && r.len() > 0 {
            rollout
        } else {
            JsonV::Array(Seq::new(b.len(), |i: int| merged_change(b[i], r)))
        },
        _ => base,
    }
}

/// Finds the first change of the file `path`.
fn find_change(changes: &Vec<Json>, path: &Vec<char>) -> (r: Option<usize>)
    ensures
        match r {
            Some(at) => at < changes.len() && change_index(list_view(changes@), path@, 0) == at,
            None => change_index(list_view(changes@), path@, 0) == changes.len(),
        },
{
    proof {
        lemma_list_view(changes@);
    }
    let mut i: usize = 0;
    while i < changes.len()
        invariant
            i <= changes.len(),
            list_view(changes@).len() == changes.len(),
            forall|j: int|
                0 <= j < changes.len() ==> #[trigger] list_view(changes@)[j] == changes@[j]@,
            change_index(list_view(changes@), path@, 0) == change_index(
                list_view(changes@),
                path@,
                i as int,
            ),
        decreases changes.len() - i,
    {
        proof {
            assert(list_view(changes@)[i as int] == changes@[i as int]@);
        }
        let same = match changes[i].str_at("path") {
            Some(p) => string_is(p, path),
            None => false,
        };
        if same {
            return Some(i);
        }
        i += 1;
    }
    None
}

/// Merges the changes of a file change.
pub fn merge_file_change_changes(base: &Json, rollout: &Json) -> (r: Json)
    ensures
        r@ == merged_changes(base@, rollout@),
{
    let b = match base.as_array() {
        Some(b) => b,
        None => {
            return base.copy();
        },
    };
    let r = match rollout.as_array() {
        Some(r) => r,
        None => {
            return base.copy();
        },
    };
    proof {
        lemma_list_view(b@);
        lemma_list_view(r@);
    }
    if b.len() == 0 && r.len() > 0 {
        return rollout.copy();
    }
    let mut out: Vec<Json> = Vec::new();
    let mut i: usize = 0;
    while i < b.len()
        invariant
            i <= b.len(),
            list_view(b@).len() == b.len(),
            forall|j: int| 0 <= j < b.len() ==> #[trigger] list_view(b@)[j] == b@[j]@,
            list_view(r@).len() == r.len(),
            forall|j: int| 0 <= j < r.len() ==> #[trigger] list_view(r@)[j] == r@[j]@,
            list_view(out@).len() == i,
            forall|j: int|
                0 <= j < i ==> #[trigger] list_view(out@)[j] == merged_change(
                    b@[j]@,
                    list_view(r@),
                ),
        decreases b.len() - i,
    {
        let change = &b[i];
        let mut next = change.copy();
        match change.str_at("path") {
            Some(p) => {
                let path = chars_of(p.as_str());
                let diff_missing = value_is_missing(change.get("diff"));
                let numbers_missing = value_is_missing(change.get("lineNumbersAvailable"));
                if diff_missing || numbers_missing {
                    match find_change(r, &path) {
                        Some(at) => {
                            proof {
                                assert(list_view(r@)[at as int] == r@[at as int]@);
                            }
                            fill(&mut next, change, &r[at], "diff");
                            fill(&mut next, change, &r[at], "lineNumbersAvailable");
                        },
                        None => {},
                    }
                }
            },
            None => {},
        }
        proof {
            lemma_list_view_push(out@, next);
        }
        out.push(next);
        i += 1;
    }
    proof {
        assert(list_view(out@) =~= Seq::new(
            list_view(b@).len(),
            |i: int| merged_change(list_view(b@)[i], list_view(r@)),
        ));
    }
    Json::Array(out)
}

/// The item of the base with what it misses taken from the item of the rollout. A
/// command gets its aggregated output, its exit code and its duration; the call of a tool
/// its result and its error; a file change its changes, merged, unless they come out
/// missing. Each of the three gets the status of the rollout where that replaces its own.
/// Any other item, and an item of which either side is no object, stays as the base has
/// it.
pub open spec fn merged_item(base: JsonV, rollout: JsonV) -> JsonV {
    if !(base is Object) || !(rollout is Object) {
        base
    } else {
        let kind = match item_type_of(base) {
            Some(t) => t,
            None => match item_type_of(rollout) {
                Some(t) => t,
                None => Seq::empty(),
            },
        };
        if kind == "commandexecution"@ {
            with_status(
                filled(
                    filled(
                        filled(base, base, rollout, "aggregatedOutput"@),
                        base,
                        rollout,
                        "exitCode"@,
                    ),
                    base,
                    rollout,
                    "durationMs"@,
                ),
                base,
                rollout,
            )
        } else if kind == "mcptoolcall"@ {
            with_status(
                filled(filled(base, base, rollout, "result"@), base, rollout, "error"@),
                base,
                rollout,
            )
        } else if kind == "filechange"@ {
            let with_changes = match rollout.get("changes"@) {
                Some(rc) => {
                    let mc = merged_changes(
                        match base.get("changes"@) {
                            Some(bc) => bc,
                            None => JsonV::Null,
                        },
                        rc,
                    );
                    if is_missing(Some(mc)) {
                        base
                    } else {
                        base.with("changes"@, mc)
                    }
                },
                None => base,
            };
            with_status(with_changes, base, rollout)
        } else {
            base
        }
    }
}

/// Merges an item of the rollout into the item of the base that it belongs to.
pub fn merge_item_fields(base: &Json, rollout: &Json) -> (r: Json)
    ensures
        r@ == merged_item(base@, rollout@),
{
    let mut merged = base.copy();
    if !base.is_object() || !rollout.is_object() {
        return merged;
    }
    let kind: Vec<char> = match item_type_key(base) {
        Some(t) => chars_of(t.as_str()),
        None => match item_type_key(rollout) {
            Some(t) => chars_of(t.as_str()),
            None => Vec::new(),
        },
    };
    let command = chars_of("commandexecution");
    let mcp = chars_of("mcptoolcall");
    let file_change = chars_of("filechange");
    if text_eq(&kind, &command) {
        fill(&mut merged, base, rollout, "aggregatedOutput");
        fill(&mut merged, base, rollout, "exitCode");
        fill(&mut merged, base, rollout, "durationMs");
        fill_status(&mut merged, base, rollout);
    } else if text_eq(&kind, &mcp) {
        fill(&mut merged, base, rollout, "result");
        fill(&mut merged, base, rollout, "error");
        fill_status(&mut merged, base, rollout);
    } else if text_eq(&kind, &file_change) {
        match rollout.get("changes") {
            Some(rc) => {
                let null = Json::Null;
                let bc: &Json = match base.get("changes") {
                    Some(bc) => bc,
                    None => &null,
                };
                let mc = merge_file_change_changes(bc, rc);
                if !value_is_missing(Some(&mc)) {
                    merged.set("changes", mc);
                }
            },
            None => {},
        }
        fill_status(&mut merged, base, rollout);
    }
    merged
}

/// The type of the items of the base that a placeholder of the kind `kind` stands for.
pub open spec fn placeholder_type(kind: Seq<char>) -> Option<Seq<char>> {
    if kind == "reasoning"@ {
        Some("reasoning"@)
    } else if kind == "agentMessage"@ {
        Some("agentmessage"@)
    } else if kind == "userMessage"@ {
        Some("usermessage"@)
    } else {
        None
    }
}

/// The first index at or after `from` of an item of the base of the type `ty` that was
/// not used yet; the number of items if there is none.
pub open spec fn next_of_type(base: Seq<JsonV>, used: Seq<bool>, ty: Seq<char>, from: int) -> int
    decreases base.len() - from,
{
    if from < 0 || from >= base.len() {
        base.len() as int
    } else if item_type_of(base[from]) == Some(ty) && from < used.len() && !used[from] {
        from
    } else {
        next_of_type(base, used, ty, from + 1)
    }
}

/// The first index at or after `from` of an item of the base with the key `key`; the
/// number of items if there is none.
pub open spec fn key_position(base: Seq<JsonV>, key: Seq<char>, from: int) -> int
    decreases base.len() - from,
{
    if from < 0 || from >= base.len() {
        base.len() as int
    } else if item_key_of(base[from]) == Some(key) {
        from
    } else {
        key_position(base, key, from + 1)
    }
}

/// The items that were merged so far, and which items of the base were used for them.
pub struct MergeScan {
    pub merged: Seq<JsonV>,
    pub used: Seq<bool>,
}

/// The scan with the item `at` of the base used for `item`.
pub open spec fn using(st: MergeScan, at: int, item: JsonV) -> MergeScan {
    MergeScan { merged: st.merged.push(item), used: st.used.update(at, true) }
}

/// The scan after one more item of the rollout. A placeholder is resolved by the first
/// item of the base of its type that was not used yet, and leaves nothing where there is
/// none. An item whose key names an item of the base that was not used yet is merged into
/// that item. Any other item stands for itself.
pub open spec fn merge_step(st: MergeScan, base: Seq<JsonV>, item: JsonV) -> MergeScan {
    match item.text_at(placeholder_key()) {
        Some(kind) => match placeholder_type(kind) {
            Some(ty) => {
                let at = next_of_type(base, st.used, ty, 0);
                if 0 <= at < base.len() {
                    using(st, at, base[at])
                } else {
                    st
                }
            },
            None => st,
        },
        None => match item_key_of(item) {
            Some(key) => {
                let at = key_position(base, key, 0);
                if 0 <= at < base.len() && at < st.used.len() && !st.used[at] {
                    using(st, at, merged_item(base[at], item))
                } else {
                    MergeScan { merged: st.merged.push(item), used: st.used }
                }
            },
            None => MergeScan { merged: st.merged.push(item), used: st.used },
        },
    }
}

/// The scan after the first `n` items of the rollout.
pub open spec fn merge_scan(base: Seq<JsonV>, rollout: Seq<JsonV>, n: int) -> MergeScan
    decreases n,
{
    if n <= 0 || n > rollout.len() {
        MergeScan { merged: Seq::empty(), used: Seq::new(base.len(), |i: int| false) }
    } else {
        merge_step(merge_scan(base, rollout, n - 1), base, rollout[n - 1])
    }
}

/// The items among the first `n` of the base that were not used, in order.
pub open spec fn unused_items(base: Seq<JsonV>, used: Seq<bool>, n: int) -> Seq<JsonV>
    decreases n,
{
    if n <= 0 || n > base.len() {
        Seq::empty()
    } else if n - 1 < used.len() && used[n - 1] {
        unused_items(base, used, n - 1)
    } else {
        unused_items(base, used, n - 1).push(base[n - 1])
    }
}

/// The items of a turn after the activity of the rollout was merged into them: the
/// items that the scan of the rollout merged, then the items of the base that it did not
/// use, without reasonings that repeat the one before them. Without activity the items
/// stay as they are.
pub open spec fn merged_turn(base: Seq<JsonV>, rollout: Seq<JsonV>) -> Seq<JsonV> {
    if rollout.len() == 0 {
        base
    } else {
        let st = merge_scan(base, rollout, rollout.len() as int);
        let all = st.merged + unused_items(base, st.used, base.len() as int);
        deduped(all, all.len() as int)
    }
}

/// A queue of the items of the base of the type `ty`: it holds places of items of that
/// type in rising order, and among them the place of every such item that was not used
/// yet.
pub open spec fn is_queue_of(q: Seq<usize>, base: Seq<JsonV>, used: Seq<bool>, ty: Seq<char>) -> bool {
    &&& forall|k: int|
        0 <= k < q.len() ==> (#[trigger] q[k]) < base.len() && item_type_of(base[q[k] as int])
            == Some(ty)
    &&& forall|a: int, b: int| 0 <= a < b < q.len() ==> (#[trigger] q[a]) < (#[trigger] q[b])
    &&& forall|j: int|
        0 <= j < base.len() && item_type_of(#[trigger] base[j]) == Some(ty) && !used[j]
            ==> q.contains(j as usize)
}

/// The search for the next item of a type passes over places that hold none.
proof fn lemma_next_of_type(base: Seq<JsonV>, used: Seq<bool>, ty: Seq<char>, from: int, to: int)
    requires
        0 <= from <= to <= base.len(),
        used.len() == base.len(),
        forall|j: int|
            from <= j < to ==> !(item_type_of(#[trigger] base[j]) == Some(ty) && !used[j]),
        to < base.len() ==> item_type_of(base[to]) == Some(ty) && !used[to],
    ensures
        next_of_type(base, used, ty, from) == to,
    decreases to - from,
{
    if from < to {
        assert(!(item_type_of(base[from]) == Some(ty) && !used[from]));
        lemma_next_of_type(base, used, ty, from + 1, to);
    }
}

/// A queue stays one when an item of the base is used.
proof fn lemma_queue_after_use(
    q: Seq<usize>,
    base: Seq<JsonV>,
    used: Seq<bool>,
    ty: Seq<char>,
    at: int,
)
    requires
        is_queue_of(q, base, used, ty),
        used.len() == base.len(),
        0 <= at < base.len(),
    ensures
        is_queue_of(q, base, used.update(at, true), ty),
{
    assert forall|j: int|
        0 <= j < base.len() && item_type_of(#[trigger] base[j]) == Some(ty) && !used.update(
            at,
            true,
        )[j] implies q.contains(j as usize) by {
        assert(!used[j]);
    }
}

/// Takes the next item of a type from its queue: the first place in the queue whose
/// item was not used yet. Places of used items are dropped on the way.
fn push_from_queue(
    queue: &mut VecDeque<usize>,
    base: &Vec<Json>,
    used: &Vec<bool>,
    Ghost(ty): Ghost<Seq<char>>,
) -> (r: Option<usize>)
    requires
        used.len() == base.len(),
        is_queue_of(old(queue)@, list_view(base@), used@, ty),
    ensures
        match r {
            Some(at) => at < base.len() && next_of_type(list_view(base@), used@, ty, 0) == at
                && is_queue_of(final(queue)@, list_view(base@), used@.update(at as int, true), ty),
            None => next_of_type(list_view(base@), used@, ty, 0) == base.len() && is_queue_of(
                final(queue)@,
                list_view(base@),
                used@,
                ty,
            ),
        },
{
    let ghost bv = list_view(base@);
    proof {
        lemma_list_view(base@);
    }
    loop
        invariant
            used.len() == base.len(),
            bv == list_view(base@),
            bv.len() == base.len(),
            is_queue_of(queue@, bv, used@, ty),
        decreases queue@.len(),
    {
        let ghost before = queue@;
        match queue.pop_front() {
            None => {
                proof {
                    assert forall|j: int| 0 <= j < bv.len() implies !(item_type_of(
                        #[trigger] bv[j],
                    ) == Some(ty) && !used@[j]) by {
                        if item_type_of(bv[j]) == Some(ty) && !used@[j] {
                            assert(before.contains(j as usize));
                        }
                    }
                    lemma_next_of_type(bv, used@, ty, 0, bv.len() as int);
                }
                return None;
            },
            Some(x) => {
                proof {
                    assert(before[0] == x);
                    assert forall|k: int| 0 <= k < queue@.len() implies #[trigger] queue@[k]
                        == before[k + 1] by {}
                }
                if !used[x] {
                    proof {
                        assert forall|j: int| 0 <= j < x implies !(item_type_of(#[trigger] bv[j])
                            == Some(ty) && !used@[j]) by {
                            if item_type_of(bv[j]) == Some(ty) && !used@[j] {
                                assert(before.contains(j as usize));
                                let k = choose|k: int| 0 <= k < before.len() && before[k] == j as usize;
                                if k > 0 {
                                    assert(before[0] < before[k]);
                                }
                            }
                        }
                        lemma_next_of_type(bv, used@, ty, 0, x as int);
                        let after = used@.update(x as int, true);
                        assert forall|j: int|
                            0 <= j < bv.len() && item_type_of(#[trigger] bv[j]) == Some(ty)
                                && !after[j] implies queue@.contains(j as usize) by {
                            assert(before.contains(j as usize));
                            let k = choose|k: int| 0 <= k < before.len() && before[k] == j as usize;
                            assert(k > 0);
                            assert(queue@[k - 1] == j as usize);
                        }
                    }
                    return Some(x);
                }
                proof {
                    assert forall|j: int|
                        0 <= j < bv.len() && item_type_of(#[trigger] bv[j]) == Some(ty)
                            && !used@[j] implies queue@.contains(j as usize) by {
                        assert(before.contains(j as usize));
                        let k = choose|k: int| 0 <= k < before.len() && before[k] == j as usize;
                        assert(k > 0);
                        assert(queue@[k - 1] == j as usize);
                    }
                }
            },
        }
    }
}

/// A queue of the items of the type `ty` among the first `n` of the base.
spec fn is_queue_upto(q: Seq<usize>, base: Seq<JsonV>, ty: Seq<char>, n: int) -> bool {
    &&& forall|k: int|
        0 <= k < q.len() ==> (#[trigger] q[k]) < n && item_type_of(base[q[k] as int]) == Some(ty)
    &&& forall|a: int, b: int| 0 <= a < b < q.len() ==> (#[trigger] q[a]) < (#[trigger] q[b])
    &&& forall|j: int|
        0 <= j < n && item_type_of(#[trigger] base[j]) == Some(ty) ==> q.contains(j as usize)
}

/// A queue takes in the next item of the base: at its end where the item is of its
/// type, and not at all where it is not.
proof fn lemma_queue_grows(q: Seq<usize>, base: Seq<JsonV>, ty: Seq<char>, n: int)
    requires
        0 <= n < base.len(),
        n <= usize::MAX,
        is_queue_upto(q, base, ty, n),
    ensures
        item_type_of(base[n]) == Some(ty) ==> is_queue_upto(q.push(n as usize), base, ty, n + 1),
        item_type_of(base[n]) != Some(ty) ==> is_queue_upto(q, base, ty, n + 1),
{
    if item_type_of(base[n]) == Some(ty) {
        let next = q.push(n as usize);
        assert forall|j: int|
            0 <= j < n + 1 && item_type_of(#[trigger] base[j]) == Some(ty) implies next.contains(
            j as usize,
        ) by {
            if j < n {
                assert(q.contains(j as usize));
                let k = choose|k: int| 0 <= k < q.len() && q[k] == j as usize;
                assert(next[k] == j as usize);
            } else {
                assert(next[q.len() as int] == j as usize);
            }
        }
    }
}


/// Finds the first item of the base with the key `key`.
fn find_key(base: &Vec<Json>, key: &Vec<char>) -> (r: Option<usize>)
    ensures
        match r {
            Some(at) => at < base.len() && key_position(list_view(base@), key@, 0) == at,
            None => key_position(list_view(base@), key@, 0) == base.len(),
        },
{
    proof {
        lemma_list_view(base@);
    }
    let mut i: usize = 0;
    while i < base.len()
        invariant
            i <= base.len(),
            list_view(base@).len() == base.len(),
            forall|j: int| 0 <= j < base.len() ==> #[trigger] list_view(base@)[j] == base@[j]@,
            key_position(list_view(base@), key@, 0) == key_position(
                list_view(base@),
                key@,
                i as int,
            ),
        decreases base.len() - i,
    {
        proof {
            assert(list_view(base@)[i as int] == base@[i as int]@);
        }
        let same = match item_key(&base[i]) {
            Some(k) => string_is(&k, key),
            None => false,
        };
        if same {
            return Some(i);
        }
        i += 1;
    }
    None
}

/// Merges the activity that the rollout tells of a turn into the items that the
/// authoritative side holds for it.
pub fn merge_turn_items(target_items: Vec<Json>, rollout_items: &Vec<Json>) -> (out: Vec<Json>)
    ensures
        list_view(out@) == merged_turn(list_view(target_items@), list_view(rollout_items@)),
{
    proof {
        lemma_list_view(rollout_items@);
        lemma_list_view(target_items@);
    }
    if rollout_items.len() == 0 {
        return target_items;
    }
    let base = target_items;
    let ghost bv = list_view(base@);
    let ghost rv = list_view(rollout_items@);
    let mut used: Vec<bool> = Vec::new();
    let mut k: usize = 0;
    while k < base.len()
        invariant
            k <= base.len(),
            used.len() == k,
            forall|j: int| 0 <= j < k ==> !(#[trigger] used@[j]),
        decreases base.len() - k,
    {
        used.push(false);
        k += 1;
    }
    let mut merged: Vec<Json> = Vec::new();
    proof {
        assert(list_view(merged@) =~= Seq::<JsonV>::empty());
        assert(used@ =~= Seq::new(bv.len(), |i: int| false));
    }
    let reasoning = chars_of("reasoning");
    let agent_message = chars_of("agentMessage");
    let user_message = chars_of("userMessage");
    let reasoning_type = chars_of("reasoning");
    let agent_type = chars_of("agentmessage");
    let user_type = chars_of("usermessage");
    let mut reasoning_queue: VecDeque<usize> = VecDeque::new();
    let mut agent_queue: VecDeque<usize> = VecDeque::new();
    let mut user_queue: VecDeque<usize> = VecDeque::new();
    proof {
        reveal_strlit("reasoning");
        reveal_strlit("agentmessage");
        reveal_strlit("usermessage");
        assert("reasoning"@.len() == 9 && "agentmessage"@.len() == 12 && "usermessage"@.len() == 11);
    }
    let mut idx: usize = 0;
    while idx < base.len()
        invariant
            idx <= base.len(),
            bv == list_view(base@),
            bv.len() == base.len(),
            forall|j: int| 0 <= j < base.len() ==> #[trigger] bv[j] == base@[j]@,
            reasoning_type@ == "reasoning"@,
            agent_type@ == "agentmessage"@,
            user_type@ == "usermessage"@,
            "reasoning"@ != "agentmessage"@,
            "reasoning"@ != "usermessage"@,
            "agentmessage"@ != "usermessage"@,
            is_queue_upto(reasoning_queue@, bv, "reasoning"@, idx as int),
            is_queue_upto(agent_queue@, bv, "agentmessage"@, idx as int),
            is_queue_upto(user_queue@, bv, "usermessage"@, idx as int),
        decreases base.len() - idx,
    {
        proof {
            assert(bv[idx as int] == base@[idx as int]@);
            lemma_queue_grows(reasoning_queue@, bv, "reasoning"@, idx as int);
            lemma_queue_grows(agent_queue@, bv, "agentmessage"@, idx as int);
            lemma_queue_grows(user_queue@, bv, "usermessage"@, idx as int);
        }
        match item_type_key(&base[idx]) {
            Some(t) => {
                if string_is(&t, &reasoning_type) {
                    reasoning_queue.push_back(idx);
                } else if string_is(&t, &agent_type) {
                    agent_queue.push_back(idx);
                } else if string_is(&t, &user_type) {
                    user_queue.push_back(idx);
                }
            },
            None => {},
        }
        idx += 1;
    }
    proof {
        assert(is_queue_of(reasoning_queue@, bv, used@, "reasoning"@));
        assert(is_queue_of(agent_queue@, bv, used@, "agentmessage"@));
        assert(is_queue_of(user_queue@, bv, used@, "usermessage"@));
    }
    let mut i: usize = 0;
    while i < rollout_items.len()
        invariant
            is_queue_of(reasoning_queue@, bv, used@, "reasoning"@),
            is_queue_of(agent_queue@, bv, used@, "agentmessage"@),
            is_queue_of(user_queue@, bv, used@, "usermessage"@),
            i <= rollout_items.len(),
            bv == list_view(base@),
            rv == list_view(rollout_items@),
            bv.len() == base.len(),
            forall|j: int| 0 <= j < base.len() ==> #[trigger] bv[j] == base@[j]@,
            rv.len() == rollout_items.len(),
            forall|j: int| 0 <= j < rollout_items.len() ==> #[trigger] rv[j] == rollout_items@[j]@,
            used.len() == base.len(),
            reasoning@ == "reasoning"@,
            agent_message@ == "agentMessage"@,
            user_message@ == "userMessage"@,
            merge_scan(bv, rv, i as int) == (MergeScan {
                merged: list_view(merged@),
                used: used@,
            }),
        decreases rollout_items.len() - i,
    {
        let item = &rollout_items[i];
        proof {
            assert(rv[i as int] == item@);
        }
        match rollout_placeholder_kind(item) {
            Some(kind) => {
                let ghost before = used@;
                let next: Option<usize> = if string_is(kind, &reasoning) {
                    let r = push_from_queue(&mut reasoning_queue, &base, &used, Ghost("reasoning"@));
                    proof {
                        if let Some(at) = r {
                            lemma_queue_after_use(agent_queue@, bv, before, "agentmessage"@, at as int);
                            lemma_queue_after_use(user_queue@, bv, before, "usermessage"@, at as int);
                        }
                    }
                    r
                } else if string_is(kind, &agent_message) {
                    let r = push_from_queue(&mut agent_queue, &base, &used, Ghost("agentmessage"@));
                    proof {
                        if let Some(at) = r {
                            lemma_queue_after_use(reasoning_queue@, bv, before, "reasoning"@, at as int);
                            lemma_queue_after_use(user_queue@, bv, before, "usermessage"@, at as int);
                        }
                    }
                    r
                } else if string_is(kind, &user_message) {
                    let r = push_from_queue(&mut user_queue, &base, &used, Ghost("usermessage"@));
                    proof {
                        if let Some(at) = r {
                            lemma_queue_after_use(reasoning_queue@, bv, before, "reasoning"@, at as int);
                            lemma_queue_after_use(agent_queue@, bv, before, "agentmessage"@, at as int);
                        }
                    }
                    r
                } else {
                    None
                };
                match next {
                    Some(at) => {
                        let c = base[at].copy();
                        proof {
                            assert(bv[at as int] == base@[at as int]@);
                            lemma_list_view_push(merged@, c);
                        }
                        merged.push(c);
                        used.set(at, true);
                    },
                    None => {},
                }
            },
            None => {
                let found = match item_key(item) {
                    Some(key) => {
                        let kv = chars_of(key.as_str());
                        match find_key(&base, &kv) {
                            Some(at) => if !used[at] {
                                Some(at)
                            } else {
                                None
                            },
                            None => None,
                        }
                    },
                    None => None,
                };
                match found {
                    Some(at) => {
                        let m = merge_item_fields(&base[at], item);
                        proof {
                            assert(bv[at as int] == base@[at as int]@);
                            lemma_list_view_push(merged@, m);
                            lemma_queue_after_use(reasoning_queue@, bv, used@, "reasoning"@, at as int);
                            lemma_queue_after_use(agent_queue@, bv, used@, "agentmessage"@, at as int);
                            lemma_queue_after_use(user_queue@, bv, used@, "usermessage"@, at as int);
                        }
                        merged.push(m);
                        used.set(at, true);
                    },
                    None => {
                        let c = item.copy();
                        proof {
                            lemma_list_view_push(merged@, c);
                        }
                        merged.push(c);
                    },
                }
            },
        }
        i += 1;
    }
    let ghost scanned = list_view(merged@);
    proof {
        assert(scanned + unused_items(bv, used@, 0) =~= scanned);
    }
    let mut j: usize = 0;
    while j < base.len()
        invariant
            j <= base.len(),
            bv == list_view(base@),
            bv.len() == base.len(),
            forall|k: int| 0 <= k < base.len() ==> #[trigger] bv[k] == base@[k]@,
            used.len() == base.len(),
            list_view(merged@) == scanned + unused_items(bv, used@, j as int),
        decreases base.len() - j,
    {
        if !used[j] {
            let c = base[j].copy();
            proof {
                assert(bv[j as int] == base@[j as int]@);
                lemma_list_view_push(merged@, c);
                assert(scanned + unused_items(bv, used@, j as int + 1) =~= (scanned + unused_items(
                    bv,
                    used@,
                    j as int,
                )).push(c@));
            }
            merged.push(c);
        }
        j += 1;
    }
    proof {
        lemma_list_view(merged@);
    }
    dedupe_adjacent_reasoning(merged)
}

/// A turn with the activity of the rollout merged into its items; the turn as it is
/// where its items are no array.
pub open spec fn augmented_turn(turn: JsonV, activity: Seq<JsonV>) -> JsonV {
    match turn.get("items"@) {
        Some(JsonV::Array(items)) => turn.with("items"@, JsonV::Array(merged_turn(items, activity))),
        _ => turn,
    }
}

/// The activity of the turn `i`; none where the rollout tells of no such turn.
pub open spec fn activity_at(activity: Seq<Seq<JsonV>>, i: int) -> Seq<JsonV> {
    if 0 <= i < activity.len() {
        activity[i]
    } else {
        Seq::empty()
    }
}

/// The answer to the resumption of a thread with the activity of the rollout merged
/// into the items of each of its turns; the answer as it is where it names no turns.
pub open spec fn augmented_response(res: JsonV, activity: Seq<Seq<JsonV>>) -> JsonV {
    match res.get("thread"@) {
        Some(thread) => match thread.get("turns"@) {
            Some(JsonV::Array(turns)) => res.with(
                "thread"@,
                thread.with(
                    "turns"@,
                    JsonV::Array(
                        Seq::new(
                            turns.len(),
                            |i: int| augmented_turn(turns[i], activity_at(activity, i)),
                        ),
                    ),
                ),
            ),
            _ => res,
        },
        None => res,
    }
}

/// Merges the activity of the rollout into the answer to the resumption of a thread.
pub fn augment_thread_resume_response(res: Json, activity: &Vec<Vec<Json>>) -> (out: Json)
    ensures
        out@ == augmented_response(res@, crate::rollout::turns_view(activity@)),
{
    let mut res = res;
    let ghost av = crate::rollout::turns_view(activity@);
    let thread = match res.get("thread") {
        Some(t) => t,
        None => {
            return res;
        },
    };
    let turns = match thread.get("turns") {
        Some(t) => match t.as_array() {
            Some(turns) => turns,
            None => {
                return res;
            },
        },
        None => {
            return res;
        },
    };
    proof {
        lemma_list_view(turns@);
    }
    let mut next: Vec<Json> = Vec::new();
    let mut i: usize = 0;
    while i < turns.len()
        invariant
            i <= turns.len(),
            av == crate::rollout::turns_view(activity@),
            list_view(turns@).len() == turns.len(),
            forall|j: int| 0 <= j < turns.len() ==> #[trigger] list_view(turns@)[j] == turns@[j]@,
            list_view(next@).len() == i,
            forall|j: int|
                0 <= j < i ==> #[trigger] list_view(next@)[j] == augmented_turn(
                    turns@[j]@,
                    activity_at(av, j),
                ),
        decreases turns.len() - i,
    {
        let turn = &turns[i];
        let mut out = turn.copy();
        match turn.get("items") {
            Some(items) => match items {
                Json::Array(list) => {
                    let copy = match items.copy() {
                        Json::Array(c) => c,
                        _ => Vec::new(),
                    };
                    let none: Vec<Json> = Vec::new();
                    proof {
                        assert(list_view(none@) =~= Seq::<JsonV>::empty());
                    }
                    let merged = if i < activity.len() {
                        merge_turn_items(copy, &activity[i])
                    } else {
                        merge_turn_items(copy, &none)
                    };
                    out.set("items", Json::Array(merged));
                },
                _ => {},
            },
            None => {},
        }
        proof {
            lemma_list_view_push(next@, out);
        }
        next.push(out);
        i += 1;
    }
    proof {
        assert(list_view(next@) =~= Seq::new(
            list_view(turns@).len(),
            |i: int| augmented_turn(list_view(turns@)[i], activity_at(av, i)),
        ));
    }
    let mut thread = thread.copy();
    thread.set("turns", Json::Array(next));
    res.set("thread", thread);
    res
}

/// What is needed to reconstruct the activity of a resumed thread.
#[derive(Debug, Clone, PartialEq, Eq)]
pub struct ResumePlan {
    /// How many turns the authoritative side counts.
    pub turn_count: usize,
    /// The path of the rollout log, where the answer names it.
    pub rollout_path: Option<String>,
    /// The working directory of the thread, where the answer names it.
    pub cwd: Option<String>,
}

/// How many turns the answer to a resumption counts: the length of the array `turns` of
/// its thread, and 0 where there is none.
pub open spec fn turn_count_of(res: JsonV) -> nat {
    match res.get("thread"@) {
        Some(t) => match t.get("turns"@) {
            Some(JsonV::Array(turns)) => turns.len(),
            _ => 0,
        },
        None => 0,
    }
}

/// The path of the rollout log that the answer to a resumption names.
pub open spec fn rollout_path_of(res: JsonV) -> Option<Seq<char>> {
    match res.get("thread"@) {
        Some(t) => t.text_at("path"@),
        None => None,
    }
}

/// The working directory that the answer to a resumption names: its own string `cwd`
/// or, failing that, the one of its thread.
pub open spec fn cwd_of(res: JsonV) -> Option<Seq<char>> {
    match res.text_at("cwd"@) {
        Some(c) => Some(c),
        None => match res.get("thread"@) {
            Some(t) => t.text_at("cwd"@),
            None => None,
        },
    }
}

/// Reads what is needed to reconstruct the activity of a resumed thread.
pub fn resume_plan(res: &Json) -> (r: ResumePlan)
    ensures
        r.turn_count == turn_count_of(res@),
        opt_view(r.rollout_path) == rollout_path_of(res@),
        opt_view(r.cwd) == cwd_of(res@),
{
    let thread = res.get("thread");
    let turn_count = match thread {
        Some(t) => match t.get("turns") {
            Some(v) => match v.as_array() {
                Some(turns) => {
                    proof {
                        lemma_list_view(turns@);
                    }
                    turns.len()
                },
                None => 0,
            },
            None => 0,
        },
        None => 0,
    };
    let rollout_path = match thread {
        Some(t) => match t.str_at("path") {
            Some(p) => Some(copy_string(p)),
            None => None,
        },
        None => None,
    };
    let cwd = match res.str_at("cwd") {
        Some(c) => Some(copy_string(c)),
        None => match thread {
            Some(t) => match t.str_at("cwd") {
                Some(c) => Some(copy_string(c)),
                None => None,
            },
            None => None,
        },
    };
    ResumePlan { turn_count: turn_count, rollout_path: rollout_path, cwd: cwd }
}

/// Tells whether a file may hold the rollout log of a thread, by its name: the name
/// holds the identifier of the thread and ends in `.jsonl`.
pub fn is_rollout_file_of(name: &str, thread_id: &str) -> (r: bool)
    ensures
        r == (contains(name@, thread_id@) && crate::text::has_suffix(name@, ".jsonl"@)),
{
    let n = chars_of(name);
    let id = chars_of(thread_id);
    let ext = chars_of(".jsonl");
    contains_text(&n, &id) && crate::text::ends_with(&n, &ext)
}

} // verus!
