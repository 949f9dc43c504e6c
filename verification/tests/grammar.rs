use git_journal::extract_tags;
use git_journal::parse_category;

#[test]
fn every_vocabulary_word_in_every_bracket_form() {
    for word in ["Added", "Changed", "Fixed", "Improved", "Removed"] {
        assert_eq!(parse_category(word).as_deref(), Some(word));
        assert_eq!(parse_category(&format!("[{}", word)).as_deref(), Some(word));
        assert_eq!(parse_category(&format!("{}]", word)).as_deref(), Some(word));
        assert_eq!(
            parse_category(&format!("[{}]", word)).as_deref(),
            Some(word)
        );
    }
}

#[test]
fn words_outside_the_vocabulary_fail() {
    assert_eq!(parse_category(""), None);
    assert_eq!(parse_category("added"), None);
    assert_eq!(parse_category("Plouf"), None);
    assert_eq!(parse_category("Addedish"), None);
    assert_eq!(parse_category("[Added]x"), None);
    assert_eq!(parse_category(" Added"), None);
    assert_eq!(parse_category("[[Added]]"), None);
}

#[test]
fn tag_extraction_round_trip() {
    let (tags, cleaned) = extract_tags("Some text :a,b:");
    assert_eq!(tags, vec!["a".to_string(), "b".to_string()]);
    assert_eq!(cleaned, "Some text");
}

#[test]
fn tag_extraction_is_idempotent_on_its_output() {
    let (_, cleaned) = extract_tags("Support foo :api,core: and bar :x:");
    assert_eq!(cleaned, "Support foo and bar");
    let (again_tags, again_cleaned) = extract_tags(&cleaned);
    assert!(again_tags.is_empty());
    assert_eq!(again_cleaned, cleaned);
}

#[test]
fn text_without_markers_is_unchanged() {
    let (tags, cleaned) = extract_tags("no markers here");
    assert!(tags.is_empty());
    assert_eq!(cleaned, "no markers here");
}

#[test]
fn empty_marker_yields_one_empty_tag() {
    let (tags, cleaned) = extract_tags("x ::");
    assert_eq!(tags, vec!["".to_string()]);
    assert_eq!(cleaned, "x");
}

#[test]
fn newline_blocks_a_marker() {
    let (tags, cleaned) = extract_tags("a :b\nc d");
    assert!(tags.is_empty());
    assert_eq!(cleaned, "a :b\nc d");
}

#[test]
fn pieces_are_trimmed_around_commas() {
    let (tags, cleaned) = extract_tags("t : a , b :");
    assert_eq!(tags, vec!["a".to_string(), "b".to_string()]);
    assert_eq!(cleaned, "t");
}

#[test]
fn markers_are_collected_left_to_right() {
    let (tags, cleaned) = extract_tags("x :a: y :b:");
    assert_eq!(tags, vec!["a".to_string(), "b".to_string()]);
    assert_eq!(cleaned, "x y");
}
