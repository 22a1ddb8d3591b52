use agentmesh::json::{parse, Json};
use agentmesh::patch::{
    build_unified_diff_for_add_delete, build_unified_diff_from_hunks, collect_lines_by_kind,
    enrich_file_change_diff, enrich_update_diff, extract_move_path, match_hunk_start,
    normalize_patch_kind, parse_apply_patch_hunks, resolve_target_path, Enrichment, PatchHunk,
    PatchKind, PatchLine, PatchLineKind, TargetFile,
};
use agentmesh::segments::{parse_apply_patch_segments, PatchFileSegment, SegmentKind};

fn line(kind: PatchLineKind, text: &str) -> PatchLine {
    PatchLine { kind, text: text.to_string() }
}

fn strings(items: &[&str]) -> Vec<String> {
    items.iter().map(|s| s.to_string()).collect()
}

const UPDATE: &str = "*** Begin Patch\n*** Update File: a.txt\nstray\n@@\n ctx\r\n-old\n+new\nbare\n@@ second\n+x\n*** End Patch";

#[test]
fn hunks_are_read_from_a_patch() {
    let hunks = parse_apply_patch_hunks(UPDATE);
    assert_eq!(
        hunks,
        vec![
            PatchHunk {
                lines: vec![
                    line(PatchLineKind::Context, "ctx"),
                    line(PatchLineKind::Delete, "old"),
                    line(PatchLineKind::Add, "new"),
                    line(PatchLineKind::Context, "bare"),
                ]
            },
            PatchHunk { lines: vec![line(PatchLineKind::Add, "x")] },
        ]
    );
    assert!(parse_apply_patch_hunks("").is_empty());
    assert!(parse_apply_patch_hunks("plain\ntext").is_empty());
    assert_eq!(
        parse_apply_patch_hunks("+a\n\n-b"),
        vec![PatchHunk {
            lines: vec![
                line(PatchLineKind::Add, "a"),
                line(PatchLineKind::Context, ""),
                line(PatchLineKind::Delete, "b")
            ]
        }]
    );
}

#[test]
fn lines_are_collected_by_kind() {
    let hunks = parse_apply_patch_hunks(UPDATE);
    assert_eq!(collect_lines_by_kind(&hunks, PatchLineKind::Add), strings(&["new", "x"]));
    assert_eq!(collect_lines_by_kind(&hunks, PatchLineKind::Delete), strings(&["old"]));
    assert_eq!(collect_lines_by_kind(&hunks, PatchLineKind::Context), strings(&["ctx", "bare"]));
}

#[test]
fn hunk_is_matched_from_the_search_cursor() {
    let file = strings(&["x", "ctx", "new", "x", "ctx", "new"]);
    let hunk = PatchHunk {
        lines: vec![
            line(PatchLineKind::Context, "ctx"),
            line(PatchLineKind::Delete, "gone"),
            line(PatchLineKind::Add, "new"),
        ],
    };
    assert_eq!(match_hunk_start(&file, &hunk, 0), Some(1));
    assert_eq!(match_hunk_start(&file, &hunk, 1), Some(1));
    assert_eq!(match_hunk_start(&file, &hunk, 2), Some(4));
    assert_eq!(match_hunk_start(&file, &hunk, 5), None);
    assert_eq!(match_hunk_start(&file, &hunk, 99), None);
    let only_deletes = PatchHunk { lines: vec![line(PatchLineKind::Delete, "x")] };
    assert_eq!(match_hunk_start(&file, &only_deletes, 0), None);
    assert_eq!(match_hunk_start(&strings(&["ctx"]), &hunk, 0), None);
}

#[test]
fn unified_diff_has_line_numbers() {
    let hunks = vec![
        PatchHunk {
            lines: vec![
                line(PatchLineKind::Context, "ctx"),
                line(PatchLineKind::Delete, "old"),
                line(PatchLineKind::Delete, "older"),
                line(PatchLineKind::Add, "new"),
            ],
        },
        PatchHunk { lines: vec![line(PatchLineKind::Add, "x")] },
    ];
    let file = strings(&["a", "ctx", "new", "b", "x"]);
    assert_eq!(
        build_unified_diff_from_hunks(&hunks, &file).as_deref(),
        Some("@@ -2,3 +2,2 @@\n ctx\n-old\n-older\n+new\n@@ -6,0 +5,1 @@\n+x")
    );
    assert_eq!(build_unified_diff_from_hunks(&Vec::new(), &file), None);
    assert_eq!(build_unified_diff_from_hunks(&hunks, &strings(&["a", "ctx", "new"])), None);
    let reversed = vec![hunks[1].clone(), hunks[0].clone()];
    assert_eq!(build_unified_diff_from_hunks(&reversed, &file), None);
}

#[test]
fn whole_files_become_one_hunk() {
    let lines = strings(&["l1", "l2"]);
    assert_eq!(
        build_unified_diff_for_add_delete(&lines, PatchKind::Add).as_deref(),
        Some("@@ -0,0 +1,2 @@\n+l1\n+l2")
    );
    assert_eq!(
        build_unified_diff_for_add_delete(&lines, PatchKind::Delete).as_deref(),
        Some("@@ -1,2 +0,0 @@\n-l1\n-l2")
    );
    assert_eq!(
        build_unified_diff_for_add_delete(&Vec::new(), PatchKind::Add).as_deref(),
        Some("@@ -0,0 +1,0 @@\n")
    );
    assert_eq!(build_unified_diff_for_add_delete(&lines, PatchKind::Update), None);
}

#[test]
fn patch_kind_is_read_leniently() {
    assert_eq!(normalize_patch_kind(&Json::string("ADD")), PatchKind::Add);
    assert_eq!(normalize_patch_kind(&Json::string("Delete")), PatchKind::Delete);
    assert_eq!(normalize_patch_kind(&Json::string("modify")), PatchKind::Update);
    assert_eq!(normalize_patch_kind(&parse(r#"{"type":"add"}"#).unwrap()), PatchKind::Add);
    assert_eq!(normalize_patch_kind(&parse(r#"{"type":"update","move_path":null}"#).unwrap()), PatchKind::Update);
    assert_eq!(normalize_patch_kind(&parse(r#"{"kind":"add"}"#).unwrap()), PatchKind::Update);
    assert_eq!(normalize_patch_kind(&Json::Null), PatchKind::Update);
    assert_eq!(extract_move_path(&parse(r#"{"move_path":"a"}"#).unwrap()).as_deref(), Some("a"));
    assert_eq!(extract_move_path(&parse(r#"{"movePath":"b"}"#).unwrap()).as_deref(), Some("b"));
    assert_eq!(extract_move_path(&parse(r#"{"move_path":null,"movePath":"b"}"#).unwrap()), None);
    assert_eq!(extract_move_path(&Json::string("x")), None);
}

#[test]
fn target_paths_resolve_against_cwd() {
    assert_eq!(resolve_target_path("/abs/a", None).as_deref(), Some("/abs/a"));
    assert_eq!(resolve_target_path("rel/a", Some("/cwd")).as_deref(), Some("/cwd/rel/a"));
    assert_eq!(resolve_target_path("rel/a", None), None);
}

#[test]
fn added_and_deleted_files_need_no_file() {
    let add = parse(r#"{"type":"add"}"#).unwrap();
    assert_eq!(
        enrich_file_change_diff("n.txt", &add, "*** Add File: n.txt\n+l1\n+l2", None),
        Enrichment::Done("@@ -0,0 +1,2 @@\n+l1\n+l2".to_string(), true)
    );
    let delete = parse(r#"{"type":"delete"}"#).unwrap();
    assert_eq!(
        enrich_file_change_diff("n.txt", &delete, "*** Delete File: n.txt\n-l1", None),
        Enrichment::Done("@@ -1,1 +0,0 @@\n-l1".to_string(), true)
    );
}

#[test]
fn updates_ask_for_their_file() {
    let update = parse(r#"{"type":"update","move_path":null}"#).unwrap();
    assert_eq!(
        enrich_file_change_diff("a.txt", &update, UPDATE, Some("/cwd")),
        Enrichment::NeedsFile("/cwd/a.txt".to_string())
    );
    assert_eq!(
        enrich_file_change_diff("a.txt", &update, UPDATE, None),
        Enrichment::Done(UPDATE.to_string(), false)
    );
    let moved = parse(r#"{"type":"update","move_path":"/m/b.txt"}"#).unwrap();
    assert_eq!(
        enrich_file_change_diff("a.txt", &moved, UPDATE, None),
        Enrichment::NeedsFile("/m/b.txt".to_string())
    );
}

#[test]
fn large_file_keeps_the_raw_patch() {
    let big = TargetFile { is_file: true, len: 1_000_001, content: Some("ctx\nnew\nbare\nx\n".to_string()) };
    assert_eq!(enrich_update_diff(UPDATE, &Some(big)), (UPDATE.to_string(), false));
    let edge = TargetFile { is_file: true, len: 1_000_000, content: Some("ctx\nnew\nbare\nx\n".to_string()) };
    assert_eq!(
        enrich_update_diff(UPDATE, &Some(edge)),
        ("@@ -1,3 +1,3 @@\n ctx\n-old\n+new\n bare\n@@ -4,0 +4,1 @@\n+x".to_string(), true)
    );
    let dir = TargetFile { is_file: false, len: 10, content: None };
    assert_eq!(enrich_update_diff(UPDATE, &Some(dir)), (UPDATE.to_string(), false));
    assert_eq!(enrich_update_diff(UPDATE, &None), (UPDATE.to_string(), false));
    let other = TargetFile { is_file: true, len: 3, content: Some("zzz".to_string()) };
    assert_eq!(enrich_update_diff(UPDATE, &Some(other)), (UPDATE.to_string(), false));
}

const BODY: &str = "*** Begin Patch\nnoise\n*** Move to: nowhere\n*** Update File: src/a.rs\n*** Move to:  src/b.rs \n@@\n-x\n+y\n*** Add File: n.txt \n+hello\n*** Move to: ignored\n*** Delete File: old.txt\n*** End Patch";

#[test]
fn patch_body_is_cut_into_segments() {
    let segs = parse_apply_patch_segments(BODY);
    assert_eq!(
        segs,
        vec![
            PatchFileSegment {
                path: "src/a.rs".to_string(),
                kind: SegmentKind::Update { move_path: Some("src/b.rs".to_string()) },
                diff: "*** Update File: src/a.rs\n*** Move to:  src/b.rs \n@@\n-x\n+y".to_string(),
            },
            PatchFileSegment {
                path: "n.txt".to_string(),
                kind: SegmentKind::Add,
                diff: "*** Add File: n.txt \n+hello\n*** Move to: ignored".to_string(),
            },
            PatchFileSegment {
                path: "old.txt".to_string(),
                kind: SegmentKind::Delete,
                diff: "*** Delete File: old.txt\n*** End Patch".to_string(),
            },
        ]
    );
    assert!(parse_apply_patch_segments("no header\n+x").is_empty());
    assert_eq!(
        agentmesh::json::to_text(&segs[0].kind.to_json()),
        r#"{"move_path":"src/b.rs","type":"update"}"#
    );
    assert_eq!(agentmesh::json::to_text(&SegmentKind::Update { move_path: None }.to_json()), r#"{"move_path":null,"type":"update"}"#);
    assert_eq!(agentmesh::json::to_text(&SegmentKind::Add.to_json()), r#"{"type":"add"}"#);
}

#[test]
fn segments_survive_render_and_reparse() {
    let segs = parse_apply_patch_segments(BODY);
    for seg in &segs {
        assert_eq!(parse_apply_patch_segments(&seg.diff), vec![seg.clone()]);
    }
    let rendered: Vec<&str> = segs.iter().map(|s| s.diff.as_str()).collect();
    assert_eq!(parse_apply_patch_segments(&rendered.join("\n")), segs);
}
