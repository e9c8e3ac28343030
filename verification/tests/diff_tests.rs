use doctor_git::diff::{plan_analysis, plan_from_output, truncate_diff, DiffPlan, DIFF_BYTE_LIMIT};

fn analyzed(plan: DiffPlan) -> String {
    match plan {
        DiffPlan::Analyze(d) => d,
        DiffPlan::NoChanges => panic!("expected a diff to analyse"),
    }
}

#[test]
fn long_diff_is_cut_at_whole_lines() {
    let line = "x".repeat(50);
    let text: String = (0..100).map(|_| format!("{}\n", line)).collect();
    let out = truncate_diff(&text);
    let expected = format!("{}\n...[TRUNCATED]", format!("{}\n", line).repeat(78));
    assert_eq!(out, expected);
    assert!(out.len() <= DIFF_BYTE_LIMIT + 16);
}

#[test]
fn short_diff_is_kept_whole() {
    assert_eq!(truncate_diff("a\r\nb\nc"), "a\nb\nc\n");
    assert_eq!(truncate_diff("a\r"), "a\r\n");
    assert_eq!(truncate_diff(""), "");
    assert_eq!(truncate_diff("x\n\n"), "x\n\n");
}

#[test]
fn line_that_would_pass_the_limit_is_left_out() {
    let first = "a".repeat(3990);
    let text = format!("{}\nbbbbbbbbbb\nc\n", first);
    assert_eq!(truncate_diff(&text), format!("{}\n\n...[TRUNCATED]", first));
    let text = format!("{}\nbbbbbbbbb\nc\n", first);
    assert_eq!(truncate_diff(&text), format!("{}\nbbbbbbbbb\n\n...[TRUNCATED]", first));
}

#[test]
fn single_huge_line_leaves_only_the_marker() {
    let text = "z".repeat(5000);
    assert_eq!(truncate_diff(&text), "\n...[TRUNCATED]");
}

#[test]
fn fewer_than_ten_bytes_is_no_change() {
    assert!(matches!(plan_analysis("short"), DiffPlan::NoChanges));
    assert!(matches!(plan_analysis("123456789"), DiffPlan::NoChanges));
    assert_eq!(analyzed(plan_analysis("1234567890")), "1234567890\n");
    assert_eq!(analyzed(plan_analysis("ééééé")), "ééééé\n");
}

#[test]
fn output_bytes_are_read_lossily() {
    assert_eq!(analyzed(plan_from_output(b"\xff\xfe abcdefgh")), "\u{fffd}\u{fffd} abcdefgh\n");
    assert!(matches!(plan_from_output(b"\xff\n"), DiffPlan::NoChanges));
    assert_eq!(analyzed(plan_from_output(b"+fn main()\n-old\n")), "+fn main()\n-old\n");
}
