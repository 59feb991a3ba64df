use openbrief::presence::split_lines;
use openbrief::text::split_words;

#[test]
fn words_are_split_on_any_whitespace() {
    assert_eq!(split_words("  codex-acp\t1.2.0\n (build x) "), vec!["codex-acp", "1.2.0", "(build", "x)"]);
    assert!(split_words(" \u{3000}\t").is_empty());
    assert_eq!(split_words("one"), vec!["one"]);
}

#[test]
fn lines_drop_their_endings() {
    let lines: Vec<String> = split_lines("a\r\nb\n\nc").into_iter().map(|l| l.into_iter().collect()).collect();
    assert_eq!(lines, vec!["a", "b", "", "c"]);
    assert!(split_lines("").is_empty());
    assert_eq!(split_lines("x\n").len(), 1);
}
