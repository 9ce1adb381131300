use wavebreaker::modifiers::{parse_from_title, remove_from_title};

#[test]
fn mods_from_title() {
    let title = "SUMMER [as-tag1] [as-tag2] [as-steep]";
    let expected_tags = Some(vec![
        "tag1".to_string(),
        "tag2".to_string(),
        "steep".to_string(),
    ]);
    assert_eq!(parse_from_title(title), expected_tags);
}

#[test]
fn mods_from_title_empty() {
    let title = "On Down";
    assert_eq!(parse_from_title(title), None);
}

#[test]
fn remove_mods_from_title() {
    let title = "Future Rewind [as-tag1] [as-tag2] [as-tag3]";
    let expected_result = "Future Rewind";
    assert_eq!(remove_from_title(title), expected_result);
}

#[test]
fn remove_mods_from_title_empty() {
    let title = "マボロシ";
    let expected_result = "マボロシ";
    assert_eq!(remove_from_title(title), expected_result);
}

#[test]
fn tag_run_is_leftmost_reaching_the_end() {
    // only the trailing run counts, found at its leftmost start
    assert_eq!(
        parse_from_title("a [as-x] b [as-y]"),
        Some(vec!["y".to_string()])
    );
    assert_eq!(remove_from_title("a [as-x] b [as-y]"), "a [as-x] b");
    // a bracketed tail that is not a tag is kept
    assert_eq!(parse_from_title("song [as-]"), None);
    assert_eq!(remove_from_title("song [as-]"), "song [as-]");
}
