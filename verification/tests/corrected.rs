use space_lt::feedback::{classify_feedback_line, extract_corrected, feedback_display_plan,
    parse_corrected_parts};

#[test]
fn parse_corrected_parts_with_markers() {
    let parts = parse_corrected_parts("I <<went>> to the store");
    assert_eq!(parts, vec![(false, "I "), (true, "went"), (false, " to the store")]);
}

#[test]
fn parse_corrected_parts_without_markers() {
    let parts = parse_corrected_parts("I went to the store");
    assert_eq!(parts, vec![(true, "I went to the store")]);
}

#[test]
fn parse_corrected_parts_multiple_markers() {
    let parts = parse_corrected_parts("I <<went>> to <<the>> store");
    assert_eq!(
        parts,
        vec![(false, "I "), (true, "went"), (false, " to "), (true, "the"), (false, " store")]
    );
}

#[test]
fn parse_corrected_parts_empty() {
    let parts = parse_corrected_parts("");
    assert!(parts.is_empty());
}

#[test]
fn parse_corrected_parts_unmatched_open() {
    let parts = parse_corrected_parts("I <<went to the store");
    assert_eq!(parts, vec![(false, "I "), (true, "went to the store")]);
}

#[test]
fn parse_corrected_parts_adjacent_markers() {
    let parts = parse_corrected_parts("<<foo>><<bar>>");
    assert_eq!(parts, vec![(true, "foo"), (true, "bar")]);
}

#[test]
fn parse_corrected_parts_stray_close() {
    let parts = parse_corrected_parts("I went>> to the store");
    assert_eq!(parts, vec![(true, "I went>> to the store")]);
}

#[test]
fn classify_severe_prefixes_render_red() {
    assert_eq!(classify_feedback_line("RED: wrong tense"), Some(("red", "wrong tense")));
    assert_eq!(classify_feedback_line("ORANGE: odd phrasing"), Some(("red", "odd phrasing")));
}

#[test]
fn classify_soft_prefixes_render_blue() {
    assert_eq!(classify_feedback_line("BLUE: nicer wording"), Some(("blue", "nicer wording")));
    assert_eq!(classify_feedback_line("YELLOW: watch this"), Some(("blue", "watch this")));
}

#[test]
fn classify_all_caps_prefix_renders_blue() {
    assert_eq!(classify_feedback_line("GREEN: well done"), Some(("blue", "well done")));
    assert_eq!(classify_feedback_line("NOTE_TO_SELF: hmm"), Some(("blue", "hmm")));
}

#[test]
fn classify_unprefixed_line_is_unclassified() {
    assert_eq!(classify_feedback_line("just a remark"), None);
    assert_eq!(classify_feedback_line("Mixed: not caps"), None);
}

#[test]
fn extract_corrected_takes_last_corrected_line() {
    let text = "RED: bad\nCORRECTED: first try\nBLUE: soft\ncorrected: I <<went>> home";
    assert_eq!(extract_corrected(text), Some("I <<went>> home"));
}

#[test]
fn extract_corrected_absent_when_no_such_line() {
    assert_eq!(extract_corrected("RED: bad\nBLUE: soft"), None);
}

#[test]
fn display_plan_orders_and_skips_lines() {
    let text = "RED: bad tense\n\nCORRECTED: I <<went>> home\nGREEN: nice try\nplain remark";
    let (lines, corrected) = feedback_display_plan(text);
    assert_eq!(
        lines,
        vec![(true, "bad tense"), (false, "nice try"), (false, "plain remark")]
    );
    assert_eq!(corrected, Some("I <<went>> home"));
}
