use agentmesh::title::derive_auto_thread_title_from_preview;
use agentmesh::title::is_cjk_char;
use agentmesh::title::truncate_mixed_cjk_or_word;
use agentmesh::title::truncate_unicode_chars;

#[test]
fn auto_title_extracts_marker_and_truncates_50_units() {
    let preview = "prefix\n## My request for Codex:\n12345678901234567890\nsuffix";
    let title = derive_auto_thread_title_from_preview(preview).unwrap();
    assert_eq!(title, "12345678901234567890 suffix");
}

#[test]
fn auto_title_supports_fullwidth_colon_marker() {
    let preview = "## My request for Codex\u{ff1a}\nabcdefg hijklmnop";
    let title = derive_auto_thread_title_from_preview(preview).unwrap();
    assert_eq!(title, "abcdefg hijklmnop");
}

#[test]
fn auto_title_counts_cjk_chars_and_english_words() {
    let preview = "## My request for Codex:\n\u{4f60}\u{597d} world, this is AI";
    let title = derive_auto_thread_title_from_preview(preview).unwrap();
    assert_eq!(title, "\u{4f60}\u{597d} world, this is AI");
}

#[test]
fn auto_title_returns_none_for_empty_preview() {
    assert_eq!(derive_auto_thread_title_from_preview("   "), None);
}

#[test]
fn auto_title_without_marker_uses_whole_preview() {
    assert_eq!(
        derive_auto_thread_title_from_preview("  fix   the\tbuild \n").as_deref(),
        Some("fix the build")
    );
}

#[test]
fn auto_title_is_none_when_only_marker_is_present() {
    assert_eq!(derive_auto_thread_title_from_preview("## My request for Codex:  "), None);
}

#[test]
fn truncate_mixed_stops_after_max_units() {
    assert_eq!(truncate_mixed_cjk_or_word("one two three four", 2), "one two");
    assert_eq!(truncate_mixed_cjk_or_word("\u{4f60}\u{597d}\u{4e16}\u{754c}", 3), "\u{4f60}\u{597d}\u{4e16}");
    assert_eq!(truncate_mixed_cjk_or_word("abc\u{4f60}def ghi", 2), "abc\u{4f60}");
    assert_eq!(truncate_mixed_cjk_or_word("anything", 0), "");
    assert_eq!(truncate_mixed_cjk_or_word("  a  b  ", 5), "a b");
}

#[test]
fn truncate_unicode_chars_counts_characters() {
    assert_eq!(truncate_unicode_chars("h\u{e9}llo", 2), "h\u{e9}");
    assert_eq!(truncate_unicode_chars("abc", 10), "abc");
    assert_eq!(truncate_unicode_chars("abc", 0), "");
}

#[test]
fn cjk_ranges_are_recognised() {
    assert!(is_cjk_char('\u{4e2d}'));
    assert!(is_cjk_char('\u{ff1a}'));
    assert!(is_cjk_char('\u{3000}'));
    assert!(!is_cjk_char('a'));
    assert!(!is_cjk_char('\u{e9}'));
}
