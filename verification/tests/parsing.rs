use git_journal::BodyElement;
use git_journal::Error;
use git_journal::Parser;

#[test]
fn full_commit_message_parses() {
    let r = Parser.parse_commit_message(
        "AB-1 [Added] Support foo :api,core:\n\nSome details.\n\nCloses: AB-1",
    );
    let pc = r.expect("message should parse");
    assert_eq!(pc.summary.prefix, "AB-1");
    assert_eq!(pc.summary.category, "Added");
    assert_eq!(pc.summary.text, "Support foo");
    assert_eq!(pc.summary.tags, vec!["api".to_string(), "core".to_string()]);
    assert_eq!(pc.body.len(), 1);
    match &pc.body[0] {
        BodyElement::Paragraph(p) => {
            assert_eq!(p.text, "Some details.");
            assert!(p.tags.is_empty());
        }
        BodyElement::List(_) => panic!("expected a paragraph"),
    }
    assert_eq!(pc.footer.len(), 1);
    assert_eq!(pc.footer[0].key, "Closes");
    assert_eq!(pc.footer[0].value, "AB-1");
}

#[test]
fn list_block_with_two_items() {
    let r = Parser.parse_commit_message("[Fixed] crash on startup\n\n- [Added] thing one\n- [Fixed] thing two");
    let pc = r.expect("message should parse");
    assert_eq!(pc.summary.category, "Fixed");
    assert_eq!(pc.body.len(), 1);
    match &pc.body[0] {
        BodyElement::List(items) => {
            assert_eq!(items.len(), 2);
            assert_eq!(items[0].category, "Added");
            assert_eq!(items[1].category, "Fixed");
        }
        BodyElement::Paragraph(_) => panic!("expected a list"),
    }
    assert!(pc.footer.is_empty());
}

#[test]
fn malformed_summary_reports_the_line() {
    let r = Parser.parse_commit_message("not a valid summary line");
    assert_eq!(
        r.unwrap_err(),
        Error::SummaryParsing("not a valid summary line".to_string())
    );
}

#[test]
fn empty_message_is_too_short() {
    assert_eq!(
        Parser.parse_commit_message("").unwrap_err(),
        Error::CommitMessageLength
    );
}

#[test]
fn whitespace_message_is_too_short() {
    assert_eq!(
        Parser.parse_commit_message("  \n \t \n\n   ").unwrap_err(),
        Error::CommitMessageLength
    );
}

#[test]
fn summary_without_prefix_parses() {
    let pc = Parser.parse_commit_message("[Removed] old cruft").unwrap();
    assert_eq!(pc.summary.prefix, "");
    assert_eq!(pc.summary.category, "Removed");
    assert_eq!(pc.summary.text, "old cruft");
    assert!(pc.summary.tags.is_empty());
}

#[test]
fn summary_with_bare_category_parses() {
    let pc = Parser.parse_commit_message("Improved build times").unwrap();
    assert_eq!(pc.summary.category, "Improved");
    assert_eq!(pc.summary.text, "build times");
}

#[test]
fn prefix_without_category_fails() {
    let r = Parser.parse_commit_message("AB-12 no category here");
    assert_eq!(
        r.unwrap_err(),
        Error::SummaryParsing("AB-12 no category here".to_string())
    );
}

#[test]
fn footer_takes_priority_over_list() {
    let pc = Parser
        .parse_commit_message("[Changed] things\n\nKey: value\n- item")
        .unwrap();
    assert!(pc.body.is_empty());
    assert_eq!(pc.footer.len(), 1);
    assert_eq!(pc.footer[0].key, "Key");
    assert_eq!(pc.footer[0].value, "value");
}

#[test]
fn malformed_list_line_is_skipped() {
    let pc = Parser
        .parse_commit_message("[Added] summary\n\n- [Fixed] good item\nnot an item at all")
        .unwrap();
    assert_eq!(pc.body.len(), 1);
    match &pc.body[0] {
        BodyElement::List(items) => {
            assert_eq!(items.len(), 1);
            assert_eq!(items[0].category, "Fixed");
            assert_eq!(items[0].text, " good item");
        }
        BodyElement::Paragraph(_) => panic!("expected a list"),
    }
}

#[test]
fn list_item_without_category_keeps_empty_category() {
    let pc = Parser
        .parse_commit_message("[Added] summary\n\n- plain item")
        .unwrap();
    match &pc.body[0] {
        BodyElement::List(items) => {
            assert_eq!(items.len(), 1);
            assert_eq!(items[0].category, "");
            assert_eq!(items[0].text, "plain item");
        }
        BodyElement::Paragraph(_) => panic!("expected a list"),
    }
}

#[test]
fn hanging_indent_list_lines_parse() {
    let pc = Parser
        .parse_commit_message("[Added] summary\n\n- [Added] first\n  - [Removed] nested")
        .unwrap();
    match &pc.body[0] {
        BodyElement::List(items) => {
            assert_eq!(items.len(), 2);
            assert_eq!(items[0].category, "Added");
            assert_eq!(items[1].category, "Removed");
            assert_eq!(items[1].text, " nested");
        }
        BodyElement::Paragraph(_) => panic!("expected a list"),
    }
}

#[test]
fn list_items_carry_their_tags() {
    let pc = Parser
        .parse_commit_message("[Added] summary\n\n- [Added] feature :net:\n- other :a, b:")
        .unwrap();
    match &pc.body[0] {
        BodyElement::List(items) => {
            assert_eq!(items.len(), 2);
            assert_eq!(items[0].tags, vec!["net".to_string()]);
            assert_eq!(items[0].text, " feature");
            assert_eq!(items[1].category, "");
            assert_eq!(items[1].tags, vec!["a".to_string(), "b".to_string()]);
        }
        BodyElement::Paragraph(_) => panic!("expected a list"),
    }
}

#[test]
fn multiple_footer_blocks_extend_in_order() {
    let pc = Parser
        .parse_commit_message("[Added] s\n\nCloses: 1\nFixes: 2\n\nmiddle paragraph\n\nSee-also: 3")
        .unwrap();
    assert_eq!(pc.footer.len(), 3);
    assert_eq!(pc.footer[0].key, "Closes");
    assert_eq!(pc.footer[1].key, "Fixes");
    assert_eq!(pc.footer[2].key, "See-also");
    assert_eq!(pc.footer[2].value, "3");
    assert_eq!(pc.body.len(), 1);
}

#[test]
fn non_footer_lines_in_footer_block_are_skipped() {
    let pc = Parser
        .parse_commit_message("[Added] s\n\nstray line\nCloses: 7")
        .unwrap();
    assert_eq!(pc.footer.len(), 1);
    assert_eq!(pc.footer[0].key, "Closes");
    assert_eq!(pc.footer[0].value, "7");
    assert!(pc.body.is_empty());
}

#[test]
fn paragraph_is_trimmed_and_tagged() {
    let pc = Parser
        .parse_commit_message("[Added] s\n\n  spaced paragraph :doc:  ")
        .unwrap();
    match &pc.body[0] {
        BodyElement::Paragraph(p) => {
            assert_eq!(p.text, "spaced paragraph");
            assert_eq!(p.tags, vec!["doc".to_string()]);
        }
        BodyElement::List(_) => panic!("expected a paragraph"),
    }
}

#[test]
fn summary_tolerates_stray_closing_bracket() {
    let pc = Parser.parse_commit_message("[Added]] text after").unwrap();
    assert_eq!(pc.summary.category, "Added");
    assert_eq!(pc.summary.text, "text after");
}

#[test]
fn error_messages_name_the_offending_text() {
    let e = Parser.parse_commit_message("bad").unwrap_err();
    assert_eq!(e.message(), "Could not parse commit summary: bad");
    assert_eq!(
        Error::CommitMessageLength.message(),
        "Commit message length too small."
    );
    assert_eq!(
        Error::FooterParsing("b".to_string()).message(),
        "Could not parse commit footer: b"
    );
}

#[test]
fn body_order_mirrors_block_order() {
    let pc = Parser
        .parse_commit_message("[Added] s\n\nfirst\n\n- [Fixed] item\n\nlast")
        .unwrap();
    assert_eq!(pc.body.len(), 3);
    assert!(matches!(pc.body[0], BodyElement::Paragraph(_)));
    assert!(matches!(pc.body[1], BodyElement::List(_)));
    assert!(matches!(pc.body[2], BodyElement::Paragraph(_)));
}
