use wsp::agentmd::{find_first, replace_marked_section, MARKER_END};

#[test]
fn test_replace_marked_section() {
    let cases: Vec<(&str, &str, &str, Vec<&str>, Vec<&str>)> = vec![
        (
            "both markers present — content replaced",
            "# Title\n\n<!-- wsp:begin -->\nold content\n<!-- wsp:end -->\n",
            "<!-- wsp:begin -->\nnew content\n<!-- wsp:end -->\n",
            vec!["# Title\n\n", "new content"],
            vec!["old content"],
        ),
        (
            "user content before and after preserved",
            "# My Notes\n\nCustom text\n\n<!-- wsp:begin -->\nold\n<!-- wsp:end -->\n\n## Footer\n",
            "<!-- wsp:begin -->\nnew\n<!-- wsp:end -->\n",
            vec!["# My Notes\n\nCustom text\n\n", "new", "## Footer"],
            vec!["old"],
        ),
        (
            "only begin marker — appends",
            "# Title\n<!-- wsp:begin -->\npartial\n",
            "<!-- wsp:begin -->\nnew\n<!-- wsp:end -->\n",
            vec!["# Title\n<!-- wsp:begin -->\npartial\n", "new", MARKER_END],
            vec![],
        ),
        (
            "only end marker — appends",
            "# Title\n<!-- wsp:end -->\n",
            "<!-- wsp:begin -->\nnew\n<!-- wsp:end -->\n",
            vec!["# Title\n<!-- wsp:end -->\n", "new"],
            vec![],
        ),
        (
            "no markers — appends",
            "# Title\n\nSome content\n",
            "<!-- wsp:begin -->\nnew\n<!-- wsp:end -->\n",
            vec!["# Title\n\nSome content\n", "new"],
            vec![],
        ),
        (
            "inverted markers — appends",
            "<!-- wsp:end -->\nstuff\n<!-- wsp:begin -->\n",
            "<!-- wsp:begin -->\nnew\n<!-- wsp:end -->\n",
            vec!["<!-- wsp:end -->\nstuff\n<!-- wsp:begin -->\n", "new"],
            vec![],
        ),
        ("empty string — appends", "", "<!-- wsp:begin -->\nnew\n<!-- wsp:end -->\n", vec!["new"], vec![]),
    ];

    for (name, existing, new_section, want_contains, want_not_contains) in &cases {
        let result = replace_marked_section(existing, new_section);
        for want in want_contains {
            assert!(
                result.contains(want),
                "case {:?}: expected to contain {:?}, got {:?}",
                name,
                want,
                result
            );
        }
        for not_want in want_not_contains {
            assert!(
                !result.contains(not_want),
                "case {:?}: expected NOT to contain {:?}, got {:?}",
                name,
                not_want,
                result
            );
        }
    }
}

#[test]
fn replacement_is_exact() {
    let existing = "# T\n<!-- wsp:begin -->\nold\n<!-- wsp:end -->\ntail\n";
    let out = replace_marked_section(existing, "<!-- wsp:begin -->\nX\n<!-- wsp:end -->\n");
    assert_eq!(out, "# T\n<!-- wsp:begin -->\nX\n<!-- wsp:end -->\ntail\n");
}

#[test]
fn append_adds_blank_line() {
    assert_eq!(replace_marked_section("abc", "S"), "abc\n\nS");
    assert_eq!(replace_marked_section("abc\n", "S"), "abc\n\nS");
    assert_eq!(replace_marked_section("", "S"), "S");
}

#[test]
fn find_first_counts_characters() {
    assert_eq!(find_first("—ab—ab", "ab"), Some(1));
    assert_eq!(find_first("abc", "x"), None);
    assert_eq!(find_first("abc", ""), Some(0));
}
