use gerb::shell::{entry_line, shell_response, trim_trailing_newlines, LinePrefix, PushOutcome, ShellHistory};

#[test]
fn history_records_and_copies() {
    let mut h = ShellHistory::new();
    assert_eq!(h.record(LinePrefix::Ps1, "1 + 1\n"), Some(">>> 1 + 1".to_string()));
    assert_eq!(h.record(LinePrefix::Output, "2\n\n"), Some("2".to_string()));
    assert_eq!(h.record(LinePrefix::Ps2, "x"), Some("... x".to_string()));
    assert_eq!(h.record(LinePrefix::Output, ""), None);
    assert_eq!(h.copy_text(), ">>> 1 + 1\n2\n... x\n");
    h.clear();
    assert_eq!(h.copy_text(), "");
}

#[test]
fn trimming() {
    assert_eq!(trim_trailing_newlines("a\n\n"), "a");
    assert_eq!(trim_trailing_newlines("\n"), "");
    assert_eq!(trim_trailing_newlines("a\nb"), "a\nb");
}

#[test]
fn shell_responses() {
    let (lines, more) = shell_response("print(1)", false, PushOutcome::Complete("1\n".to_string()));
    assert_eq!(
        lines,
        vec![(LinePrefix::Ps1, "print(1)\n".to_string()), (LinePrefix::Output, "1\n".to_string())]
    );
    assert!(!more);
    let (lines, more) = shell_response("x = 1", true, PushOutcome::Complete(String::new()));
    assert_eq!(lines, vec![(LinePrefix::Ps2, "x = 1".to_string())]);
    assert!(!more);
    let (lines, more) = shell_response("", false, PushOutcome::Incomplete);
    assert_eq!(lines, vec![(LinePrefix::Ps1, "\n".to_string())]);
    assert!(more);
    let (lines, more) = shell_response("def f():", false, PushOutcome::Incomplete);
    assert_eq!(lines, vec![(LinePrefix::Ps1, "def f():".to_string())]);
    assert!(more);
    let (lines, more) = shell_response("1/0", true, PushOutcome::Failed("ZeroDivisionError".to_string()));
    assert_eq!(lines, vec![(LinePrefix::Output, "ZeroDivisionError".to_string())]);
    assert!(!more);
    assert_eq!(entry_line(""), "\n");
    assert_eq!(entry_line("a"), "a");
    assert_eq!(LinePrefix::Ps2.as_str(), "... ");
}
