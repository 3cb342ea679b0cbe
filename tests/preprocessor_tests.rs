use neurassembly::data::collector::function_pairs;
use neurassembly::data::preprocessor::DataPreprocessor;

#[test]
fn comments_are_removed_and_registers_widened() {
    let p = DataPreprocessor::new();
    let text = "  ; header\nmov eax, 1 ; set\n# note\n\n  push ebx  \n";
    assert_eq!(p.preprocess(text), "mov rax, 1\n\npush rbx");
}

#[test]
fn crlf_and_unicode_spaces_are_trimmed() {
    let p = DataPreprocessor { normalize_registers: false, remove_comments: true };
    assert_eq!(p.preprocess("a\r\n\u{3000}b\u{a0};c\r\n"), "a\nb");
    assert_eq!(p.preprocess(""), "");
    assert_eq!(p.preprocess("\n"), "");
    assert_eq!(p.preprocess("x\n\ny"), "x\n\ny");
}

#[test]
fn register_names_are_replaced_left_to_right() {
    let p = DataPreprocessor { normalize_registers: true, remove_comments: false };
    assert_eq!(p.preprocess("eeaxx ecx,edx ; eax"), "eraxx rcx,rdx ; rax");
    assert_eq!(p.preprocess("ea"), "ea");
}

#[test]
fn switched_off_steps_leave_text_alone() {
    let p = DataPreprocessor { normalize_registers: false, remove_comments: false };
    assert_eq!(p.preprocess("  mov eax, 1 ; c\n"), "  mov eax, 1 ; c\n");
}

#[test]
fn listing_is_split_into_functions() {
    let listing = "\t.file \"t.c\"\n.LFB0:\n\tpush rbp\n.LFE0:\nret\r\n";
    let pairs = function_pairs(listing);
    assert_eq!(pairs.len(), 2);
    assert_eq!(pairs[0].0, ".LFB0:\n\tpush rbp\n");
    assert_eq!(pairs[0].1, pairs[0].0);
    assert_eq!(pairs[1].0, ".LFE0:\nret\n");
    assert!(function_pairs("no header\n").is_empty());
    assert!(function_pairs("").is_empty());
}
