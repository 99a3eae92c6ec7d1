use yaml_error_context_hack::error_and_context::{is_sentinel_location, select_marks};
use yaml_error_context_hack::message::{clean_message, last_two_marks};
use yaml_error_context_hack::{ErrorAndContext, RawError, SourceOffset};

/// The location that serde_yaml reports for errors whose real position is
/// only in the message.
const SENTINEL: Option<(usize, usize, usize)> = Some((0, 1, 1));

fn raw(message: &str, structured_location: Option<(usize, usize, usize)>) -> RawError {
    RawError {
        message: message.to_string(),
        structured_location,
    }
}

#[test]
fn returns_source_offsets_for_missing_field() {
    let file_contents = r#"---
outer:
  field_1: 123
# ^
# '--- field_2 missing the first character of the first type that has `#[serde(flatten)]`.
"#;
    let error = raw("outer: missing field `field_2` at line 3 column 3", SENTINEL);
    let error_and_context = ErrorAndContext::extract(file_contents, &error);

    let loc_line = 3;
    let loc_col = 3; // index 2 is column 3

    assert_eq!(
        ErrorAndContext {
            error_span: Some(SourceOffset::from_location(
                file_contents,
                loc_line,
                loc_col
            )),
            error_message: "outer: missing field `field_2`".to_string(),
            context_span: None,
        },
        error_and_context,
        "{}",
        error.message
    );
}

#[test]
fn returns_source_offsets_for_missing_field_for_flattened_struct() {
    let file_contents = r#"---
outer:
  # inner
  field_1: 123
# ^
# '-- field_2 missing on the first character of the wrapping first type that has `#[serde(flatten)]`.
"#;
    let error = raw("outer: missing field `field_2` at line 4 column 3", SENTINEL);
    let error_and_context = ErrorAndContext::extract(file_contents, &error);

    let loc_line = 4;
    let loc_col = 3; // index 2 is column 3

    assert_eq!(
        ErrorAndContext {
            error_span: Some(SourceOffset::from_location(
                file_contents,
                loc_line,
                loc_col
            )),
            error_message: "outer: missing field `field_2`".to_string(),
            context_span: None,
        },
        error_and_context,
        "{}",
        error.message
    );
}

#[test]
fn returns_source_offsets_for_missing_field_for_nested_flattened_struct() {
    let file_contents = r#"---
outer:
  # inner, inner_inner
  field_1: 123
# ^
# '-- field_2 missing on the first character of the first type that has `#[serde(flatten)]`.
"#;
    let error = raw("outer: missing field `field_2` at line 4 column 3", SENTINEL);
    let error_and_context = ErrorAndContext::extract(file_contents, &error);

    let loc_line = 4;
    let loc_col = 3; // index 2 is column 3

    assert_eq!(
        ErrorAndContext {
            error_span: Some(SourceOffset::from_location(
                file_contents,
                loc_line,
                loc_col
            )),
            error_message: "outer: missing field `field_2`".to_string(),
            context_span: None,
        },
        error_and_context,
        "{}",
        error.message
    );
}

#[test]
fn returns_source_offsets_for_missing_field_for_nested_flattened_struct_2() {
    let file_contents = r#"---
outer:
  # inner
  inner_outer:
    # inner_inner
    field_1: 123
# ^
# '-- field_2 is always marked as missing on the first character of the
#     first wrapping type. Ideally it would point to `field_1`'s position (line 6 col 5).
"#;
    let error = raw("outer: missing field `field_2` at line 4 column 3", SENTINEL);
    let error_and_context = ErrorAndContext::extract(file_contents, &error);

    let loc_line = 4;
    let loc_col = 3; // index 4 is column 3

    assert_eq!(
        ErrorAndContext {
            error_span: Some(SourceOffset::from_location(
                file_contents,
                loc_line,
                loc_col
            )),
            error_message: "outer: missing field `field_2`".to_string(),
            context_span: None,
        },
        error_and_context,
        "{}",
        error.message
    );
}

#[test]
fn returns_source_offsets_for_null_variant() {
    let file_contents = r#"---
outer:
  inner: ~ # null variant
#        ^
#        '-- source offset is here.
"#;
    let error = raw(
        "outer.inner: unknown variant `~`, expected `One` or `Two` at line 3 column 10",
        SENTINEL,
    );
    let error_and_context = ErrorAndContext::extract(file_contents, &error);

    let loc_line = 3;
    let loc_col = 10; // index 9 is column 10

    assert_eq!(
        ErrorAndContext {
            error_span: Some(SourceOffset::from_location(
                file_contents,
                loc_line,
                loc_col
            )),
            error_message: "outer.inner: unknown variant `~`, expected `One` or `Two`"
                .to_string(),
            context_span: None,
        },
        error_and_context,
        "{}",
        error.message
    );
}

const CONTENTS: &str = "---\nouter:\n  path: 12\n  other: [1, 2, 3]\n";

fn offset(line: usize, column: usize) -> Option<SourceOffset> {
    Some(SourceOffset::from_location(CONTENTS, line, column))
}

#[test]
fn two_marks_give_error_and_context() {
    let error = raw(
        "missing field `path` at line 2 column 12 at line 2 column 3",
        SENTINEL,
    );
    let r = ErrorAndContext::extract(CONTENTS, &error);
    assert_eq!(r.error_span, offset(2, 12));
    assert_eq!(r.context_span, offset(2, 3));
    assert_eq!(r.error_message, "missing field `path`");
    assert_ne!(r.error_span, r.context_span);
}

#[test]
fn marks_beyond_two_are_ignored() {
    let three = raw(
        "unknown variant `~`, expected one of `a`, `b` at line 4 column 1 at line 2 column 11 at line 2 column 3",
        SENTINEL,
    );
    let two = raw(
        "unknown variant `~`, expected one of `a`, `b` at line 2 column 11 at line 2 column 3",
        SENTINEL,
    );
    let r3 = ErrorAndContext::extract(CONTENTS, &three);
    let r2 = ErrorAndContext::extract(CONTENTS, &two);
    assert_eq!(r3.error_span, offset(2, 11));
    assert_eq!(r3.context_span, offset(2, 3));
    assert_eq!(r3, r2);
}

#[test]
fn no_location_and_no_at_keeps_message() {
    let error = raw("invalid type: string \"x\", expected u32", None);
    let r = ErrorAndContext::extract(CONTENTS, &error);
    assert_eq!(r.error_span, None);
    assert_eq!(r.context_span, None);
    assert_eq!(r.error_message, "invalid type: string \"x\", expected u32");
}

#[test]
fn no_location_still_cleans_message() {
    let error = raw("bad value at line 3 column 9", None);
    let r = ErrorAndContext::extract(CONTENTS, &error);
    assert_eq!(r.error_span, None);
    assert_eq!(r.context_span, None);
    assert_eq!(r.error_message, "bad value");
}

#[test]
fn trusted_location_wins_over_message() {
    let error = raw(
        "did not find expected node content at line 2 column 12 at line 2 column 3",
        Some((17, 4, 10)),
    );
    let r = ErrorAndContext::extract(CONTENTS, &error);
    assert_eq!(r.error_span, offset(4, 10));
    assert_eq!(r.context_span, None);
    assert_eq!(r.error_message, "did not find expected node content");
}

#[test]
fn sentinel_without_marks_gives_no_spans() {
    let error = raw("invalid type: unit value, expected u32", SENTINEL);
    let r = ErrorAndContext::extract(CONTENTS, &error);
    assert_eq!(r.error_span, None);
    assert_eq!(r.context_span, None);
    assert_eq!(r.error_message, "invalid type: unit value, expected u32");
}

#[test]
fn malformed_fragments_are_skipped() {
    let error = raw(
        "oops at line 2 column 3 at line x column 4 at line 5 column",
        SENTINEL,
    );
    let r = ErrorAndContext::extract(CONTENTS, &error);
    assert_eq!(r.error_span, offset(2, 3));
    assert_eq!(r.context_span, None);
    assert_eq!(r.error_message, "oops");
}

#[test]
fn mark_numbers_follow_usize_parsing() {
    assert_eq!(
        last_two_marks("a at line +2 column 3"),
        (Some((2, 3)), None)
    );
    assert_eq!(
        last_two_marks("a at line 99999999999999999999999 column 1"),
        (None, None)
    );
    assert_eq!(last_two_marks("a at line -2 column 3"), (None, None));
    assert_eq!(last_two_marks("a at line  2 column 3"), (None, None));
    assert_eq!(last_two_marks("a at line 3 column 4 column 5"), (Some((3, 4)), None));
    assert_eq!(last_two_marks("a at line 3 column "), (None, None));
}

#[test]
fn last_two_marks_reads_from_the_right() {
    assert_eq!(
        last_two_marks("m at line 1 column 2 at line 3 column 4 at line 5 column 6"),
        (Some((5, 6)), Some((3, 4)))
    );
    assert_eq!(last_two_marks("no marks here"), (None, None));
    assert_eq!(last_two_marks(""), (None, None));
}

#[test]
fn select_marks_ranks_marks() {
    let m = "e at line 2 column 12 at line 2 column 3";
    assert_eq!(select_marks(m, SENTINEL), (Some((2, 12)), Some((2, 3))));
    assert_eq!(select_marks(m, None), (None, None));
    assert_eq!(select_marks(m, Some((5, 1, 6))), (Some((1, 6)), None));
    assert_eq!(
        select_marks("e at line 7 column 8", SENTINEL),
        (Some((7, 8)), None)
    );
}

#[test]
fn sentinel_is_exactly_zero_one_one() {
    assert!(is_sentinel_location((0, 1, 1)));
    assert!(!is_sentinel_location((0, 1, 2)));
    assert!(!is_sentinel_location((0, 2, 1)));
    assert!(!is_sentinel_location((1, 1, 1)));
}

#[test]
fn cleaning_cuts_at_first_at() {
    assert_eq!(clean_message("look at this at line 1 column 2"), "look");
    assert_eq!(clean_message("nothing to cut"), "nothing to cut");
    assert_eq!(clean_message(""), "");
    assert_eq!(clean_message(" at line 1 column 1"), "");
    assert_eq!(clean_message("é at x"), "é");
}

#[test]
fn cleaning_twice_is_cleaning_once() {
    for m in [
        "missing field `path` at line 2 column 12 at line 2 column 3",
        "a at b at c",
        "plain",
        " at ",
    ] {
        let once = clean_message(m);
        assert_eq!(clean_message(&once), once);
    }
}

#[test]
fn new_without_location_uses_message_only() {
    let error = <serde_yaml::Error as serde::de::Error>::custom("bad thing at line 2 column 3");
    assert!(error.location().is_none());
    let r = ErrorAndContext::new(CONTENTS, &error);
    assert_eq!(r.error_span, None);
    assert_eq!(r.context_span, None);
    assert_eq!(r.error_message, "bad thing");
}

#[test]
fn new_with_real_location_trusts_it() {
    let contents = "- 1\n- x\n";
    let error = serde_yaml::from_str::<Vec<u32>>(contents).unwrap_err();
    let location = error.location().expect("a location");
    assert_ne!(
        (location.index(), location.line(), location.column()),
        (0, 1, 1)
    );
    let r = ErrorAndContext::new(contents, &error);
    assert_eq!(
        r.error_span,
        Some(SourceOffset::from_location(
            contents,
            location.line(),
            location.column()
        ))
    );
    assert_eq!(r.context_span, None);
    let text = error.to_string();
    assert!(text.starts_with(&r.error_message));
    assert!(!r.error_message.contains(" at "));
}
