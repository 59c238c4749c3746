use ivaldi_core::grep_edit::{edit_content, EditSelector};
use ivaldi_core::line_edit::RichEditError;

#[test]
fn test_edit_lines() {
    let content = "line1\nline2\nline3";
    let outcome = edit_content(content, EditSelector::Lines(2, 2), "new_line2").unwrap();
    assert_eq!(outcome.content, "line1\nnew_line2\nline3");
}

#[test]
fn test_edit_grep() {
    let content = "foo = 1\nbar = 2";
    let outcome = edit_content(content, EditSelector::Grep("bar".to_string()), "bar = 3").unwrap();
    assert_eq!(outcome.content, "foo = 1\nbar = 3");
}

#[test]
fn test_edit_error_no_grep_match() {
    let result = edit_content("foo", EditSelector::Grep("bar".to_string()), "baz");
    assert!(result.is_err());
}

#[test]
fn test_anchor_trimming() {
    let content = "line1\nline2\nline3\nline4\nline5";
    let replacement = "line2\nNEW_LINE3\nline4";
    let outcome = edit_content(content, EditSelector::Lines(3, 3), replacement).unwrap();
    assert!(outcome.content.contains("line2\nline2"));
    assert!(outcome.content.contains("line4\nline4"));
    assert!(!outcome.heuristics_triggered.contains(&"anchor_trimming_leading".to_string()));
    assert!(!outcome.heuristics_triggered.contains(&"anchor_trimming_trailing".to_string()));
}

#[test]
fn test_indentation_healing() {
    let content = "parent:\n    child: old";
    let outcome = edit_content(content, EditSelector::Lines(2, 2), "child: new").unwrap();
    assert_eq!(outcome.content, "parent:\n    child: new");
    assert!(outcome.heuristics_triggered.contains(&"indentation_healing".to_string()));
}

#[test]
fn test_no_healing_for_large_blocks() {
    let content = "parent:\n    child: old";
    let mut replacement = String::new();
    for i in 0..110 {
        replacement.push_str(&format!("line{}\n", i));
    }
    let outcome = edit_content(content, EditSelector::Lines(2, 2), &replacement).unwrap();
    assert!(outcome.content.contains("parent:\nline0"));
    assert!(!outcome.heuristics_triggered.contains(&"indentation_healing".to_string()));
}

#[test]
fn test_indentation_healing_tabs() {
    let content = "parent:\n\tchild: old";
    let outcome = edit_content(content, EditSelector::Lines(2, 2), "child: new").unwrap();
    assert_eq!(outcome.content, "parent:\n\tchild: new");
    assert!(outcome.heuristics_triggered.contains(&"indentation_healing".to_string()));
}

#[test]
fn test_indentation_healing_multiline() {
    let content = "def my_func():\n    # original code\n    pass";
    let replacement = "print('hello')\nreturn True";
    let outcome = edit_content(content, EditSelector::Lines(2, 3), replacement).unwrap();
    assert_eq!(outcome.content, "def my_func():\n    print('hello')\n    return True");
    assert!(outcome.heuristics_triggered.contains(&"indentation_healing".to_string()));
}

#[test]
fn test_no_double_indentation() {
    let content = "parent:\n    child: old";
    let outcome = edit_content(content, EditSelector::Lines(2, 2), "    child: new").unwrap();
    assert_eq!(outcome.content, "parent:\n    child: new");
    assert!(!outcome.heuristics_triggered.contains(&"indentation_healing".to_string()));
}

#[test]
fn test_no_healing_for_mixed_indentation_with_proper_first_line() {
    let content = "def test():\n    return (\n        True\n    )";
    let replacement = "        False\n    )\n\nTOP_LEVEL = 1";
    let outcome = edit_content(content, EditSelector::Lines(3, 4), replacement).unwrap();
    assert_eq!(
        outcome.content,
        "def test():\n    return (\n        False\n    )\n\nTOP_LEVEL = 1"
    );
    assert!(!outcome.heuristics_triggered.contains(&"indentation_healing".to_string()));
}

#[test]
fn invalid_range_names_the_range() {
    let result = edit_content("a\nb", EditSelector::Lines(4, 5), "x");
    match result {
        Err(RichEditError::InvalidLineRange(msg)) => {
            assert_eq!(msg, "Invalid line range: 4-5 (total lines: 2)")
        }
        other => panic!("unexpected: {:?}", other),
    }
}

#[test]
fn mismatched_indentation_is_rejected() {
    let result = edit_content("a:\n    b", EditSelector::Lines(2, 2), "  c");
    assert!(matches!(result, Err(RichEditError::IndentationMismatch(2, 4))));
}

#[test]
fn grep_anchor_lines_are_trimmed() {
    let content = "alpha\nbeta\ngamma";
    let outcome = edit_content(content, EditSelector::Grep("^beta$".to_string()), "alpha\nBETA\ngamma").unwrap();
    assert_eq!(outcome.content, "alpha\nBETA\ngamma");
    assert!(outcome.heuristics_triggered.contains(&"anchor_trimming_leading".to_string()));
    assert!(outcome.heuristics_triggered.contains(&"anchor_trimming_trailing".to_string()));
    assert!(outcome.heuristics_triggered.contains(&"grep_multi_line_replacement".to_string()));
}

#[test]
fn grep_ambiguous_lists_all_lines() {
    let result = edit_content("x = 1\nx = 2\ny = 3", EditSelector::Grep("x".to_string()), "z");
    match result {
        Err(RichEditError::GrepAmbiguous(ctx)) => {
            assert_eq!(ctx.matches.len(), 2);
            assert_eq!(ctx.matches[1].line_start, 2);
            assert_eq!(ctx.matches[1].name, "x = 2");
        }
        other => panic!("unexpected: {:?}", other),
    }
}

#[test]
fn grep_no_match_reports_case_insensitive_lines() {
    let result = edit_content("Foo bar\nbaz", EditSelector::Grep("foo".to_string()), "z");
    match result {
        Err(RichEditError::GrepNoMatch(ctx)) => {
            assert_eq!(ctx.partial_matches.len(), 1);
            assert_eq!(ctx.partial_matches[0].line, 1);
            assert_eq!(ctx.similar_lines, vec!["Foo bar".to_string(), "baz".to_string()]);
            assert_eq!(ctx.file_info.total_lines, 2);
            assert_eq!(ctx.file_info.total_bytes, 11);
        }
        other => panic!("unexpected: {:?}", other),
    }
}

#[test]
fn invalid_regex_is_reported() {
    let result = edit_content("a", EditSelector::Grep("(".to_string()), "b");
    match result {
        Err(RichEditError::InvalidPattern(msg)) => assert!(msg.starts_with("Invalid regex pattern: ")),
        other => panic!("unexpected: {:?}", other),
    }
}

#[test]
fn trailing_newline_is_kept() {
    let outcome = edit_content("a\nb\n", EditSelector::Lines(1, 1), "c").unwrap();
    assert_eq!(outcome.content, "c\nb\n");
}

#[test]
fn insertion_before_line() {
    let outcome = edit_content("a\nb", EditSelector::Lines(2, 1), "x").unwrap();
    assert_eq!(outcome.content, "a\nx\nb");
}
