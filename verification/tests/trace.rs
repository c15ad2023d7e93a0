use moonshot::trace::{report_line, report_lines, ReportLine};

fn text(v: &Option<Vec<char>>) -> Option<String> {
    v.as_ref().map(|c| c.iter().collect())
}

fn fields(r: &ReportLine) -> [Option<String>; 4] {
    [text(&r.x), text(&r.y), text(&r.vx), text(&r.vy)]
}

fn some(s: &str) -> Option<String> {
    Some(s.to_string())
}

#[test]
fn reads_the_fields_of_a_report_line() {
    let out = report_lines(
        "update #  0:  120 ticks  x=   0.000 y=   0.000 vx= 0.000 vy= 0.000\n\
         update #  1:  120 ticks  x=   0.100 y=   0.050 vx= 0.900 vy= 0.450\n",
    );
    assert_eq!(out.len(), 2);
    // A key word standing alone takes the next word as its value.
    assert_eq!(fields(&out[0]), [some("0.000"), some("0.000"), some("0.000"), some("0.000")]);
    assert_eq!(fields(&out[1]), [some("0.100"), some("0.050"), some("0.900"), some("0.450")]);
    let out = report_lines("update #  1: 120 ticks  x=0.100 y=0.050 vx=0.900 vy=0.450");
    assert_eq!(out.len(), 1);
    assert_eq!(
        fields(&out[0]),
        [some("0.100"), some("0.050"), some("0.900"), some("0.450")]
    );
}

#[test]
fn skips_lines_without_the_marker() {
    let out = report_lines(
        "FLAT (macro): all 100 updates ran in exactly 120 ticks.\n\
         noise x=1\n\
         update #  7: 3 ticks x=1 y=2 vx=3 vy=4\n\
         VARIABLE (macro): min=1 ticks, max=2 ticks\n",
    );
    assert_eq!(out.len(), 1);
    assert_eq!(fields(&out[0]), [some("1"), some("2"), some("3"), some("4")]);
}

#[test]
fn later_words_win_and_missing_fields_stay_empty() {
    let l: Vec<char> = "update # x=1 x=2 vy=9".chars().collect();
    let r = report_line(&l).unwrap();
    assert_eq!(fields(&r), [some("2"), None, None, some("9")]);
}

#[test]
fn crlf_line_endings_are_stripped() {
    let out = report_lines("update # x=1 y=2 vx=3 vy=4\r\nupdate # x=5 y=6 vx=7 vy=8\r\n");
    assert_eq!(out.len(), 2);
    assert_eq!(fields(&out[1]), [some("5"), some("6"), some("7"), some("8")]);
}

#[test]
fn unicode_white_space_separates_words() {
    let out = report_lines("update #\u{00A0}x=1\u{3000}y=2\tvx=3 vy=4");
    assert_eq!(fields(&out[0]), [some("1"), some("2"), some("3"), some("4")]);
}

#[test]
fn empty_trace_has_no_reports() {
    assert!(report_lines("").is_empty());
    assert!(report_lines("\n\n").is_empty());
}

#[test]
fn splitting_a_trace_at_a_line_ending_splits_its_reports() {
    let a = "update # x=1 y=1 vx=1 vy=1\nnoise\nupdate # x=2";
    let b = "update # x=3 y=3 vx=3 vy=3\r";
    let whole = report_lines(&format!("{}\n{}", a, b));
    let mut parts: Vec<[Option<String>; 4]> = report_lines(a).iter().map(fields).collect();
    parts.extend(report_lines(b).iter().map(fields));
    let whole: Vec<[Option<String>; 4]> = whole.iter().map(fields).collect();
    assert_eq!(whole, parts);
    assert_eq!(whole.len(), 3);
}

#[test]
fn padded_line_as_the_embedded_binary_prints_it() {
    let out = report_lines("update #  0:   96 ticks  x=   0.000 y=   0.000 vx= 0.000 vy= 0.000");
    assert_eq!(out.len(), 1);
    assert_eq!(fields(&out[0]), [some("0.000"), some("0.000"), some("0.000"), some("0.000")]);
}

#[test]
fn a_key_at_the_end_of_the_line_has_an_empty_value() {
    let l: Vec<char> = "update # y=2 x=".chars().collect();
    let r = report_line(&l).unwrap();
    assert_eq!(fields(&r), [some(""), some("2"), None, None]);
}
