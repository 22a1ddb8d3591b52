//! Notifications of file changes, as a persistent worker sends them: the patch of each
//! change is rendered with the line numbers of the file where the file can be read.

use vstd::prelude::*;
use crate::json::{list_view, lemma_list_view, lemma_list_view_push, Json, JsonV};
use crate::patch::{
    enrich_file_change_diff, enrich_update_diff, enriched_update, enrichment_plan, Enrichment,
    EnrichmentV, TargetFile,
};
use crate::rollout::{find_file, found_at, text_at_or_empty, FoundFile};
use crate::text::{chars_of, copy_string, lemma_views_push, str_eq, views};

verus! {

/// The member `kind` of a change; null where it has none.
pub open spec fn change_kind(change: JsonV) -> JsonV {
    match change.get("kind"@) {
        Some(k) => k,
        None => JsonV::Null,
    }
}

/// A change with its patch rendered: where it names a path and holds a patch, both as
/// strings, the patch is replaced by its rendering and the change says whether the
/// rendering has line numbers. Any other change is left as it is.
pub open spec fn rendered_change(change: JsonV, cwd: Seq<char>, files: Seq<FoundFile>) -> JsonV {
    match (change.text_at("path"@), change.text_at("diff"@)) {
        (Some(path), Some(diff)) => {
            let r = match enrichment_plan(path, change_kind(change), diff, Some(cwd)) {
                EnrichmentV::Done(text, numbered) => (text, numbered),
                EnrichmentV::NeedsFile(full) => enriched_update(diff, found_at(files, full, 0)),
            };
            change.with("diff"@, JsonV::Str(r.0)).with("lineNumbersAvailable"@, JsonV::Bool(r.1))
        },
        _ => change,
    }
}

/// The changes that a notification carries: those of its item, where the notification
/// says that an item started or completed and the item is a file change.
pub open spec fn changes_of(message: JsonV) -> Option<Seq<JsonV>> {
    let method = text_at_or_empty(message, "method"@);
    if method != "item/started"@ && method != "item/completed"@ {
        None
    } else {
        match message.get("params"@) {
            None => None,
            Some(params) => match params.get("item"@) {
                None => None,
                Some(item) => if item.text_at("type"@) == Some("fileChange"@) {
                    match item.get("changes"@) {
                        Some(c) => c.as_items(),
                        None => None,
                    }
                } else {
                    None
                },
            },
        }
    }
}

/// A notification with the patches of its changes rendered. One that carries no changes
/// is left as it is.
pub open spec fn enriched_notification(
    message: JsonV,
    cwd: Seq<char>,
    files: Seq<FoundFile>,
) -> JsonV {
    match changes_of(message) {
        None => message,
        Some(changes) => {
            let params = message.get("params"@).unwrap();
            let item = params.get("item"@).unwrap();
            let updated = Seq::new(changes.len(), |i: int| rendered_change(changes[i], cwd, files));
            message.with(
                "params"@,
                params.with("item"@, item.with("changes"@, JsonV::Array(updated))),
            )
        },
    }
}

/// The changes of a notification, where it carries any.
fn find_changes(message: &Json) -> (r: Option<&Vec<Json>>)
    ensures
        match r {
            Some(items) => changes_of(message@) == Some(list_view(items@)),
            None => changes_of(message@) is None,
        },
{
    let method: &str = match message.str_at("method") {
        Some(m) => m.as_str(),
        None => "",
    };
    proof {
        reveal_strlit("");
        assert(method@ =~= text_at_or_empty(message@, "method"@));
    }
    if !str_eq(method, "item/started") && !str_eq(method, "item/completed") {
        return None;
    }
    let params = match message.get("params") {
        Some(p) => p,
        None => {
            return None;
        },
    };
    let item = match params.get("item") {
        Some(i) => i,
        None => {
            return None;
        },
    };
    let is_change = match item.str_at("type") {
        Some(t) => str_eq(t.as_str(), "fileChange"),
        None => false,
    };
    if !is_change {
        return None;
    }
    match item.get("changes") {
        Some(c) => c.as_array(),
        None => None,
    }
}

/// Renders the patch of a change.
fn render_change(change: &Json, cwd: &str, files: &Vec<FoundFile>) -> (r: Json)
    ensures
        r@ == rendered_change(change@, cwd@, files@),
{
    let mut out = change.copy();
    let (path, diff) = match (change.str_at("path"), change.str_at("diff")) {
        (Some(p), Some(d)) => (p, d),
        _ => {
            return out;
        },
    };
    let null = Json::Null;
    let kind: &Json = match change.get("kind") {
        Some(k) => k,
        None => &null,
    };
    let (text, numbered) = match enrich_file_change_diff(
        path.as_str(),
        kind,
        diff.as_str(),
        Some(cwd),
    ) {
        Enrichment::Done(text, numbered) => (text, numbered),
        Enrichment::NeedsFile(full) => {
            let key = chars_of(full.as_str());
            let file: Option<TargetFile> = match find_file(files, &key) {
                Some(f) => Some(
                    TargetFile {
                        is_file: f.is_file,
                        len: f.len,
                        content: match &f.content {
                            Some(c) => Some(copy_string(c)),
                            None => None,
                        },
                    },
                ),
                None => None,
            };
            proof {
                assert(enriched_update(diff@, file) == enriched_update(
                    diff@,
                    found_at(files@, full@, 0),
                ));
            }
            enrich_update_diff(diff.as_str(), &file)
        },
    };
    out.set("diff", Json::Str(text));
    out.set("lineNumbersAvailable", Json::Bool(numbered));
    out
}

/// Renders the patches of the changes of a notification, with the files that the caller
/// found for them.
pub fn enrich_file_change_notification(message: Json, cwd: &str, files: &Vec<FoundFile>) -> (r:
    Json)
    ensures
        r@ == enriched_notification(message@, cwd@, files@),
{
    let mut updated: Vec<Json> = Vec::new();
    let mut item: Json;
    let mut params: Json;
    match find_changes(&message) {
        None => {
            return message;
        },
        Some(changes) => {
            proof {
                lemma_list_view(updated@);
                lemma_list_view(changes@);
            }
            let mut i: usize = 0;
            while i < changes.len()
                invariant
                    i <= changes.len(),
                    list_view(updated@) == Seq::new(
                        i as nat,
                        |k: int| rendered_change(list_view(changes@)[k], cwd@, files@),
                    ),
                decreases changes.len() - i,
            {
                let next = render_change(&changes[i], cwd, files);
                proof {
                    lemma_list_view(changes@);
                    lemma_list_view_push(updated@, next);
                    assert(Seq::new(
                        i as nat,
                        |k: int| rendered_change(list_view(changes@)[k], cwd@, files@),
                    ).push(next@) =~= Seq::new(
                        (i + 1) as nat,
                        |k: int| rendered_change(list_view(changes@)[k], cwd@, files@),
                    ));
                }
                updated.push(next);
                i += 1;
            }
            proof {
                assert(list_view(changes@).len() == changes.len());
            }
            params = match message.get("params") {
                Some(p) => p.copy(),
                None => Json::Null,
            };
            item = match params.get("item") {
                Some(i) => i.copy(),
                None => Json::Null,
            };
        },
    }
    item.set("changes", Json::Array(updated));
    params.set("item", item);
    let mut out = message;
    out.set("params", params);
    out
}

/// The files that the rendering of the first `n` changes needs.
pub open spec fn change_targets(changes: Seq<JsonV>, cwd: Seq<char>, n: int) -> Seq<Seq<char>>
    decreases n,
{
    if n <= 0 || n > changes.len() {
        Seq::empty()
    } else {
        let c = changes[n - 1];
        let rest = change_targets(changes, cwd, n - 1);
        match (c.text_at("path"@), c.text_at("diff"@)) {
            (Some(path), Some(diff)) => match enrichment_plan(
                path,
                change_kind(c),
                diff,
                Some(cwd),
            ) {
                EnrichmentV::NeedsFile(full) => rest.push(full),
                EnrichmentV::Done(_, _) => rest,
            },
            _ => rest,
        }
    }
}

/// The files that the rendering of a notification needs.
pub open spec fn targets_of(message: JsonV, cwd: Seq<char>) -> Seq<Seq<char>> {
    match changes_of(message) {
        Some(changes) => change_targets(changes, cwd, changes.len() as int),
        None => Seq::empty(),
    }
}

/// Lists the files that the rendering of a notification needs: the paths of the files
/// that its changes update.
pub fn notification_targets(message: &Json, cwd: &str) -> (out: Vec<String>)
    ensures
        views(out@) == targets_of(message@, cwd@),
{
    let mut out: Vec<String> = Vec::new();
    proof {
        assert(views(out@) =~= Seq::<Seq<char>>::empty());
    }
    let changes = match find_changes(message) {
        Some(c) => c,
        None => {
            return out;
        },
    };
    proof {
        lemma_list_view(changes@);
    }
    let null = Json::Null;
    let mut i: usize = 0;
    while i < changes.len()
        invariant
            i <= changes.len(),
            null@ == JsonV::Null,
            list_view(changes@).len() == changes.len(),
            views(out@) == change_targets(list_view(changes@), cwd@, i as int),
        decreases changes.len() - i,
    {
        let c = &changes[i];
        proof {
            lemma_list_view(changes@);
        }
        i += 1;
        if let (Some(path), Some(diff)) = (c.str_at("path"), c.str_at("diff")) {
            let kind: &Json = match c.get("kind") {
                Some(k) => k,
                None => &null,
            };
            match enrich_file_change_diff(path.as_str(), kind, diff.as_str(), Some(cwd)) {
                Enrichment::NeedsFile(full) => {
                    proof {
                        lemma_views_push(out@, full);
                    }
                    out.push(full);
                },
                Enrichment::Done(_, _) => {},
            }
        }
    }
    out
}

} // verus!
