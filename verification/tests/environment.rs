use agentmesh::controller::default_output_schema_path;
use agentmesh::environment::{
    add_search_dirs, codex_bin_env, codex_config_path, default_codex_home_dir,
    default_search_dirs, default_shell, env_override, env_value, executable_candidates,
    find_bytes, find_executable_in_paths, parse_env_snapshot, read_entries, resolve_codex_bin,
    resolve_codex_home, shell_flag, snapshot_command, EnvSyncError,
};
use agentmesh::patch::reads_file;
use agentmesh::pool::{app_server_id_for_key, CodexAppServerPool};
use agentmesh::json::parse_or_error;
use agentmesh::watch::{
    event_matches_path, file_name_of, is_relevant_event, paths_equal, to_epoch_ms, ChangeKind,
    ThreadWatchState, WatchStep, DEBOUNCE_MS,
};

fn bytes(text: &str) -> Vec<u8> {
    text.as_bytes().to_vec()
}

fn chars(text: &str) -> Vec<char> {
    text.chars().collect()
}

fn pair(name: &str, value: &str) -> (Vec<u8>, Vec<u8>) {
    (bytes(name), bytes(value))
}

#[test]
fn bytes_are_found_at_their_first_place() {
    assert_eq!(find_bytes(&bytes("abcabc"), &bytes("bc")), Some(1));
    assert_eq!(find_bytes(&bytes("abcabc"), &bytes("abc")), Some(0));
    assert_eq!(find_bytes(&bytes("abcabc"), &bytes("cab")), Some(2));
    assert_eq!(find_bytes(&bytes("abcabc"), &bytes("abcabc")), Some(0));
    assert_eq!(find_bytes(&bytes("abcabc"), &bytes("x")), None);
    assert_eq!(find_bytes(&bytes("ab"), &bytes("abc")), None);
    assert_eq!(find_bytes(&bytes("abc"), &bytes("")), Some(0));
    assert_eq!(find_bytes(&bytes(""), &bytes("")), Some(0));
    assert_eq!(find_bytes(&bytes(""), &bytes("a")), None);
}

#[test]
fn shell_output_is_read_between_the_marks() {
    let out = bytes(
        "motd\n__AGENTMESH_ENV_BEGIN__\0PATH=/usr/bin:/bin\0EMPTY=\0=nameless\0novalue\0\0A=b=c\0PATH=/opt/bin\0__AGENTMESH_ENV_END__\0bye",
    );
    let entries = parse_env_snapshot(&out).unwrap();
    assert_eq!(
        entries,
        vec![
            pair("PATH", "/usr/bin:/bin"),
            pair("EMPTY", ""),
            pair("A", "b=c"),
            pair("PATH", "/opt/bin"),
        ]
    );
    assert_eq!(env_value(&entries, &bytes("PATH")), Some(&bytes("/opt/bin")));
    assert_eq!(env_value(&entries, &bytes("EMPTY")), Some(&bytes("")));
    assert_eq!(env_value(&entries, &bytes("HOME")), None);
}

#[test]
fn shell_output_without_marks_is_refused() {
    assert_eq!(parse_env_snapshot(&bytes("PATH=/bin\0")), Err(EnvSyncError::MissingBegin));
    assert_eq!(
        parse_env_snapshot(&bytes("__AGENTMESH_ENV_BEGIN__\0PATH=/bin\0")),
        Err(EnvSyncError::MissingEnd)
    );
    assert_eq!(
        parse_env_snapshot(&bytes("__AGENTMESH_ENV_END__\0__AGENTMESH_ENV_BEGIN__\0")),
        Err(EnvSyncError::MissingEnd)
    );
    assert_eq!(
        parse_env_snapshot(&bytes("__AGENTMESH_ENV_BEGIN__\0__AGENTMESH_ENV_END__\0")),
        Ok(Vec::new())
    );
    assert_eq!(EnvSyncError::MissingBegin.message(), "shell env sync did not include begin sentinel");
    assert_eq!(EnvSyncError::MissingEnd.message(), "shell env sync did not include end sentinel");
    assert_eq!(EnvSyncError::TimedOut.message(), "shell env sync timed out after 2s");
    assert_eq!(
        EnvSyncError::UnsupportedShell { shell: "/bin/fish".to_string() }.message(),
        "unsupported shell for env sync: /bin/fish"
    );
}

#[test]
fn records_end_at_zero_bytes() {
    let data = bytes("xxA=1\0B=2yy");
    assert_eq!(read_entries(&data, 2, 9), vec![pair("A", "1"), pair("B", "2")]);
    assert_eq!(read_entries(&data, 2, 5), vec![pair("A", "1")]);
    assert_eq!(read_entries(&data, 2, 2), Vec::new());
    assert_eq!(read_entries(&data, 0, 11), vec![pair("xxA", "1"), pair("B", "2yy")]);
}

#[test]
fn login_shells_that_are_asked() {
    assert_eq!(shell_flag("/bin/zsh"), Some("-lic"));
    assert_eq!(shell_flag("/usr/local/bin/bash"), Some("-lic"));
    assert_eq!(shell_flag("bash"), Some("-lic"));
    assert_eq!(shell_flag("/bin/sh"), None);
    assert_eq!(shell_flag("/usr/bin/fish"), None);
    assert_eq!(shell_flag(""), None);
    assert_eq!(
        snapshot_command(),
        "printf '__AGENTMESH_ENV_BEGIN__\\0'; /usr/bin/env -0; printf '__AGENTMESH_ENV_END__\\0'"
    );
}

#[test]
fn search_path_gets_what_it_lacks() {
    let paths = vec!["/usr/bin".to_string(), "/home/u/.cargo/bin/".to_string()];
    let extras = vec![
        "/opt/homebrew/bin".to_string(),
        "/home/u/.cargo/bin".to_string(),
        "/opt/homebrew/bin".to_string(),
        "/usr//bin".to_string(),
    ];
    assert_eq!(
        add_search_dirs(paths.clone(), &extras),
        vec!["/usr/bin", "/home/u/.cargo/bin/", "/opt/homebrew/bin"]
    );
    assert_eq!(add_search_dirs(paths.clone(), &Vec::new()), paths);
    assert_eq!(add_search_dirs(Vec::new(), &extras[..2].to_vec()), extras[..2].to_vec());
}

#[test]
fn the_named_program_goes_first() {
    assert_eq!(codex_bin_env(), "AGENTMESH_CODEX_BIN");
    assert_eq!(
        resolve_codex_bin(Some("/x/codex".to_string()), true, Some("/usr/bin/codex".to_string())),
        Ok("/x/codex".to_string())
    );
    assert_eq!(
        resolve_codex_bin(Some("/x/codex".to_string()), false, Some("/usr/bin/codex".to_string())),
        Err("AGENTMESH_CODEX_BIN points to a missing file: /x/codex".to_string())
    );
    assert_eq!(
        resolve_codex_bin(None, false, Some("/usr/bin/codex".to_string())),
        Ok("/usr/bin/codex".to_string())
    );
    let missing = resolve_codex_bin(None, true, None).unwrap_err();
    assert!(missing.starts_with("codex not found on PATH."));
    assert!(missing.ends_with("or launch from Terminal."));
    assert_eq!(env_override(Some(" /x ".to_string())), Some(" /x ".to_string()));
    assert_eq!(env_override(Some(" \t".to_string())), None);
    assert_eq!(env_override(Some(String::new())), None);
    assert_eq!(env_override(None), None);
}

#[test]
fn changes_that_can_touch_content() {
    assert!(is_relevant_event(ChangeKind::Create));
    assert!(is_relevant_event(ChangeKind::Remove));
    assert!(is_relevant_event(ChangeKind::ModifyData));
    assert!(is_relevant_event(ChangeKind::ModifyName));
    assert!(is_relevant_event(ChangeKind::ModifyAny));
    assert!(!is_relevant_event(ChangeKind::ModifyOther));
    assert!(!is_relevant_event(ChangeKind::Other));
}

#[test]
fn paths_are_compared_part_by_part() {
    assert!(paths_equal(&chars("/a/b"), &chars("/a//b/")));
    assert!(paths_equal(&chars("/a/./b"), &chars("/a/b")));
    assert!(paths_equal(&chars("a/b"), &chars("a/b")));
    assert!(!paths_equal(&chars("/a/b"), &chars("a/b")));
    assert!(!paths_equal(&chars("./a"), &chars("a")));
    assert!(!paths_equal(&chars("/a/b"), &chars("/a/b/c")));
    assert!(!paths_equal(&chars("/a/b"), &chars("/a/c")));
    assert_eq!(file_name_of(&chars("/a/b.jsonl")), Some(chars("b.jsonl")));
    assert_eq!(file_name_of(&chars("/a/b/")), Some(chars("b")));
    assert_eq!(file_name_of(&chars("/a/..")), None);
    assert_eq!(file_name_of(&chars("/")), None);
    assert_eq!(file_name_of(&chars(".")), None);
    assert_eq!(file_name_of(&chars("")), None);
}

#[test]
fn a_change_matches_by_path_or_by_file_name() {
    let target = "/home/u/.codex/sessions/rollout-1.jsonl";
    let some = |items: &[&str]| items.iter().map(|s| s.to_string()).collect::<Vec<_>>();
    assert!(event_matches_path(&some(&["/x", target]), target));
    assert!(event_matches_path(&some(&["/tmp/rollout-1.jsonl"]), target));
    assert!(!event_matches_path(&some(&["/home/u/.codex/sessions/rollout-2.jsonl"]), target));
    assert!(!event_matches_path(&Vec::new(), target));
    assert!(event_matches_path(&some(&["/b/.."]), "/a/.."));
}

#[test]
fn a_watcher_passes_changes_on_twice_a_second_at_most() {
    let target = "/s/rollout-1.jsonl";
    let paths = vec![target.to_string()];
    let mut watch = ThreadWatchState::new();
    assert_eq!(watch.on_change(ChangeKind::ModifyData, &paths, 10), WatchStep::Ignore);
    assert!(!watch.is_watching("thr", target));

    assert!(watch.start("thr", target));
    assert!(watch.is_watching("thr", target));
    assert!(watch.is_watching("thr", "/s//rollout-1.jsonl"));
    assert!(!watch.is_watching("other", target));
    assert!(!watch.start("thr", target));

    let emit = WatchStep::Emit { thread_id: "thr".to_string(), path: target.to_string() };
    assert_eq!(watch.on_change(ChangeKind::ModifyData, &paths, 1_000), emit);
    assert_eq!(watch.last_emit_ms, Some(1_000));
    assert_eq!(watch.on_change(ChangeKind::ModifyData, &paths, 1_000 + DEBOUNCE_MS - 1), WatchStep::Ignore);
    assert_eq!(watch.last_emit_ms, Some(1_000));
    assert_eq!(watch.on_change(ChangeKind::Other, &paths, 5_000), WatchStep::Ignore);
    assert_eq!(watch.on_change(ChangeKind::Create, &vec!["/s/x".to_string()], 5_000), WatchStep::Ignore);
    assert_eq!(watch.on_change(ChangeKind::Create, &paths, 900), WatchStep::Ignore);
    assert_eq!(watch.on_change(ChangeKind::Create, &paths, 1_000 + DEBOUNCE_MS), emit);
    assert_eq!(watch.last_emit_ms, Some(1_500));

    assert!(watch.start("thr2", target));
    assert_eq!(watch.last_emit_ms, None);
    watch.stop();
    assert_eq!(watch, ThreadWatchState::new());
    assert_eq!(watch.on_change(ChangeKind::Create, &paths, 9_000), WatchStep::Ignore);
}

#[test]
fn the_first_executable_candidate_is_found() {
    let dirs = vec!["/usr/bin".to_string(), "/opt/bin/".to_string(), "rel".to_string()];
    let candidates = executable_candidates("codex", &dirs);
    assert_eq!(candidates, vec!["/usr/bin/codex", "/opt/bin/codex", "rel/codex"]);
    assert_eq!(
        find_executable_in_paths(&candidates, &vec![false, true, true]).as_deref(),
        Some("/opt/bin/codex")
    );
    assert_eq!(
        find_executable_in_paths(&candidates, &vec![true]).as_deref(),
        Some("/usr/bin/codex")
    );
    assert_eq!(find_executable_in_paths(&candidates, &vec![false, false, false]), None);
    assert_eq!(find_executable_in_paths(&candidates, &vec![false]), None);
    assert_eq!(find_executable_in_paths(&candidates, &Vec::new()), None);
    assert_eq!(find_executable_in_paths(&Vec::new(), &vec![true]), None);
    assert_eq!(executable_candidates("codex", &Vec::new()), Vec::<String>::new());
}

#[test]
fn instants_become_milliseconds() {
    assert_eq!(to_epoch_ms(0, 0), Some(0));
    assert_eq!(to_epoch_ms(1, 999_999), Some(1_000));
    assert_eq!(to_epoch_ms(1, 1_000_000), Some(1_001));
    assert_eq!(to_epoch_ms(1_700_000_000, 123_456_789), Some(1_700_000_000_123));
    assert_eq!(to_epoch_ms(18_446_744_073_709_551, 615_000_000), Some(u64::MAX));
    assert_eq!(to_epoch_ms(18_446_744_073_709_551, 616_000_000), None);
    assert_eq!(to_epoch_ms(u64::MAX, 0), None);
}

#[test]
fn broken_json_is_told_with_a_message() {
    assert!(parse_or_error("[1, 2]").is_ok());
    let message = parse_or_error("{\"a\":").unwrap_err();
    assert!(!message.is_empty());
    assert_ne!(message, "{\"a\":");
}

#[test]
fn defaults_follow_the_platform_and_the_home() {
    assert_eq!(default_shell(true), "/bin/zsh");
    assert_eq!(default_shell(false), "/bin/sh");
    assert_eq!(
        default_search_dirs(true, Some("/home/u")),
        vec!["/opt/homebrew/bin", "/usr/local/bin", "/home/u/.local/bin", "/home/u/.cargo/bin"]
    );
    assert_eq!(
        default_search_dirs(false, Some("/home/u/")),
        vec!["/home/u/.local/bin", "/home/u/.cargo/bin"]
    );
    assert_eq!(default_search_dirs(true, None), vec!["/opt/homebrew/bin", "/usr/local/bin"]);
    assert_eq!(default_search_dirs(false, None), Vec::<String>::new());

    assert_eq!(resolve_codex_home(Some("/x/codex"), Some("/home/u")), "/x/codex");
    assert_eq!(resolve_codex_home(Some(" /x "), None), " /x ");
    assert_eq!(resolve_codex_home(Some("  "), Some("/home/u")), "/home/u/.codex");
    assert_eq!(resolve_codex_home(None, Some("/home/u")), "/home/u/.codex");
    assert_eq!(resolve_codex_home(None, Some(" ")), "/.codex");
    assert_eq!(resolve_codex_home(Some(""), None), "/.codex");
    assert_eq!(resolve_codex_home(None, None), "/.codex");

    assert_eq!(default_codex_home_dir(Some("/home/u"), Some("C:/u")), Ok("/home/u/.codex".to_string()));
    assert_eq!(default_codex_home_dir(None, Some("C:/u")), Ok("C:/u/.codex".to_string()));
    assert_eq!(default_codex_home_dir(None, None), Err("HOME directory not found".to_string()));
    assert_eq!(codex_config_path(Some("/home/u"), None), Ok("/home/u/.codex/config.toml".to_string()));
    assert_eq!(codex_config_path(None, None), Err("HOME directory not found".to_string()));

    assert_eq!(
        default_output_schema_path("/ws", true, Some("/cwd")),
        "/ws/schemas/worker-output.schema.json"
    );
    assert_eq!(
        default_output_schema_path("/ws", false, Some("/cwd")),
        "/cwd/schemas/worker-output.schema.json"
    );
    assert_eq!(default_output_schema_path("/ws", false, None), "./schemas/worker-output.schema.json");
}

#[test]
fn small_files_are_read_for_line_numbers() {
    assert!(reads_file(true, 0));
    assert!(reads_file(true, 1_000_000));
    assert!(!reads_file(true, 1_000_001));
    assert!(!reads_file(false, 10));
}

#[test]
fn a_home_keeps_its_session_identifier() {
    let mut pool = CodexAppServerPool::new(2);
    let derived = pool.resolve_id("/home/u/.codex");
    assert_eq!(derived, app_server_id_for_key("/home/u/.codex"));
    assert!(derived.starts_with("asrv_"));
    assert_eq!(derived.len(), 21);
    pool.register("asrv_custom", "/home/u/.codex", None);
    assert_eq!(pool.resolve_id("/home/u/.codex"), "asrv_custom");
    assert_eq!(pool.resolve_id("/other"), app_server_id_for_key("/other"));
}
