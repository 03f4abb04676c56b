use yumo_core::text_processor::{
    append_terminal_period, add_cjk_spacing, is_hallucinated, merge_uppercase_letter_sequences,
    strip_terminal_period, apply_replacements, apply_builtin_dict,
};
use yumo_core::text_processor::word_rules::word_pattern;
use yumo_core::text_processor::builtin_dict::replace_literal;

#[test]
fn terminal_period_idempotent_and_undone_by_strip() {
    for s in ["今天天气好", "hello  ", "ok", "调用 API"] {
        let once = append_terminal_period(s);
        assert_eq!(append_terminal_period(&once), once);
        assert_eq!(strip_terminal_period(&once), s.trim_end());
    }
}

#[test]
fn cjk_spacing_idempotent() {
    for s in ["今天是2026年", "Hello世界", "a中b文c", ""] {
        let once = add_cjk_spacing(s);
        assert_eq!(add_cjk_spacing(&once), once);
    }
}

#[test]
fn hallucination_filter() {
    assert!(is_hallucinated("   "));
    assert!(is_hallucinated("(字幕由 Amara 提供)"));
    assert!(is_hallucinated("【音乐】"));
    assert!(is_hallucinated("... ... !!"));
    assert!(!is_hallucinated("你好世界"));
    assert!(!is_hallucinated("hello world"));
    // one token of 1-4 characters repeated at least three times
    assert!(is_hallucinated("ん ん ん ん"));
    assert!(is_hallucinated("  ん ん ん  "));
    assert!(is_hallucinated("谢谢谢谢谢谢"));
    assert!(is_hallucinated("abcd abcd abcd"));
    assert!(is_hallucinated("ok ok  ok"));
    assert!(!is_hallucinated("ok ok"));
    assert!(!is_hallucinated("abcde abcde abcde"));
    assert!(!is_hallucinated("ok ok ok no"));
    assert!(!is_hallucinated("hello hello"));
}

#[test]
fn acronym_merge_edges() {
    assert_eq!(merge_uppercase_letter_sequences("X\tY z"), "XY z");
    assert_eq!(merge_uppercase_letter_sequences("A B1"), "A B1");
    assert_eq!(merge_uppercase_letter_sequences("aB C"), "aB C");
    assert_eq!(merge_uppercase_letter_sequences(""), "");
}

#[test]
fn replacement_rules_use_escaped_whole_words() {
    assert_eq!(word_pattern("c++"), "\\bc\\+\\+\\b");
    let rules = vec![("a.b".to_string(), "X".to_string())];
    assert_eq!(apply_replacements("a.b axb", &rules), "X axb");
    // Rules apply in order, each on the previous result.
    let rules = vec![("one".to_string(), "two".to_string()), ("two".to_string(), "three".to_string())];
    assert_eq!(apply_replacements("one", &rules), "three");
}

#[test]
fn builtin_literal_replacement() {
    let s: Vec<char> = "aaa".chars().collect();
    let from: Vec<char> = "aa".chars().collect();
    let to: Vec<char> = "b".chars().collect();
    let r: String = replace_literal(&s, &from, &to).into_iter().collect();
    assert_eq!(r, "ba");
    assert_eq!(apply_builtin_dict("百渡百渡"), "百度百度");
    assert_eq!(apply_builtin_dict("GITHUB"), "GitHub");
}

#[test]
fn cjk_spacing_inserts_only_spaces() {
    for s in ["中a文b", "用API调用", "3个 apple", "纯中文", "plain"] {
        let spaced = add_cjk_spacing(s);
        assert_eq!(spaced.replace(' ', ""), s.replace(' ', ""));
    }
    assert_eq!(add_cjk_spacing("中a文b"), "中 a 文 b");
}

#[test]
fn period_stripping_removes_the_whole_trailing_run() {
    assert_eq!(strip_terminal_period("你好。。"), "你好");
    assert_eq!(strip_terminal_period("Hello.."), "Hello");
    assert_eq!(strip_terminal_period("Skills. \n"), "Skills");
    assert_eq!(strip_terminal_period("Wait..."), "Wait...");
    assert_eq!(strip_terminal_period("Really?"), "Really?");
    assert_eq!(strip_terminal_period("   "), "   ");
}

#[test]
fn base64_alphabet_and_padding() {
    use_base64();
}

fn use_base64() {
    assert_eq!(yumo_core::audio_io::base64_encode(b"M"), "TQ==");
    assert_eq!(yumo_core::audio_io::base64_encode(b"Ma"), "TWE=");
    assert_eq!(yumo_core::audio_io::base64_encode(b"Man"), "TWFu");
    let all: Vec<u8> = (0u8..=255).collect();
    let enc = yumo_core::audio_io::base64_encode(&all);
    assert_eq!(enc.len(), 4 * ((256 + 2) / 3));
    assert!(enc.trim_end_matches('=').chars().all(|c| c.is_ascii_alphanumeric() || c == '+' || c == '/'));
    assert!(enc.ends_with("==") && !enc.ends_with("==="));
}
