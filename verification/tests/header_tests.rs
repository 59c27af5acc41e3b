use example_gallery::error::GalleryError;
use example_gallery::header::Header;

fn script(lines: &[&str]) -> String {
    let mut text = String::new();
    for line in lines {
        text.push_str(line);
        text.push('\n');
    }
    text
}

#[test]
fn header_with_description_and_modeline() {
    let code = script(&[
        "# Laplace",
        "#",
        "# Solves the *Laplace* problem",
        "#",
        "# on a unit square.",
        "",
        "import nutils",
        "# example:thumbnail=1:tags=a,b",
    ]);
    let header = Header::parse(&code).unwrap();
    assert_eq!(header.name, "Laplace");
    assert_eq!(header.description, "Solves the *Laplace* problem\n\non a unit square.\n");
    assert_eq!(header.thumbnail, Some(1));
    assert_eq!(header.tags, vec!["official", "a", "b"]);
}

#[test]
fn modeline_sets_thumbnail_and_appends_tags() {
    let code = script(&["# x", "#", "pass", "# example:thumbnail=1:tags=a,b"]);
    let header = Header::parse(&code).unwrap();
    assert_eq!(header.thumbnail, Some(1));
    assert_eq!(header.tags, vec!["official", "a", "b"]);
}

#[test]
fn header_without_modeline_has_the_implicit_tag_only() {
    let code = script(&["# Name", "#", "# text", "print(1)"]);
    let header = Header::parse(&code).unwrap();
    assert_eq!(header.name, "Name");
    assert_eq!(header.description, "text\n");
    assert_eq!(header.thumbnail, None);
    assert_eq!(header.tags, vec!["official"]);
}

#[test]
fn header_of_two_lines_has_an_empty_description() {
    let header = Header::parse("# Name\n#").unwrap();
    assert_eq!(header.name, "Name");
    assert_eq!(header.description, "");
}

#[test]
fn carriage_returns_before_line_feeds_are_dropped() {
    let header = Header::parse("# Name\r\n#\r\n# text\r\ncode\r\n# example:tags=t\r\n").unwrap();
    assert_eq!(header.name, "Name");
    assert_eq!(header.description, "text\n");
    assert_eq!(header.tags, vec!["official", "t"]);
}

#[test]
fn a_modeline_inside_the_leading_comment_is_description() {
    let code = script(&["# Name", "#", "# example:tags=a"]);
    let header = Header::parse(&code).unwrap();
    assert_eq!(header.description, "example:tags=a\n");
    assert_eq!(header.tags, vec!["official"]);
}

#[test]
fn a_modeline_comes_after_the_line_that_ends_the_description() {
    let code = script(&["# Name", "#", "# text", "# example:tags=a"]);
    let header = Header::parse(&code).unwrap();
    assert_eq!(header.description, "text\nexample:tags=a\n");
    assert_eq!(header.tags, vec!["official"]);
    let code = script(&["# Name", "#", "x = 1", "# example:tags=a"]);
    let header = Header::parse(&code).unwrap();
    assert_eq!(header.description, "");
    assert_eq!(header.tags, vec!["official", "a"]);
}

#[test]
fn a_last_line_without_the_prefix_is_ignored() {
    let code = script(&["# Name", "#", "", "x = 1", "# something else"]);
    let header = Header::parse(&code).unwrap();
    assert_eq!(header.thumbnail, None);
    assert_eq!(header.tags, vec!["official"]);
}

#[test]
fn later_directives_override_and_extend() {
    let code = script(&["# Name", "#", "", "# example:thumbnail=0:tags=a:thumbnail=+7:tags=b,,c"]);
    let header = Header::parse(&code).unwrap();
    assert_eq!(header.thumbnail, Some(7));
    assert_eq!(header.tags, vec!["official", "a", "b", "", "c"]);
}

#[test]
fn empty_script_fails() {
    assert_eq!(Header::parse("").err(), Some(GalleryError::PrematureEnd));
}

#[test]
fn first_line_must_be_a_comment_with_a_space() {
    assert_eq!(Header::parse("import x\n#\n").err(), Some(GalleryError::ExpectedComment));
    assert_eq!(Header::parse("#Name\n#\n").err(), Some(GalleryError::ExpectedComment));
    assert_eq!(Header::parse("\n#\n").err(), Some(GalleryError::ExpectedComment));
}

#[test]
fn missing_empty_comment_on_second_line_fails() {
    assert_eq!(Header::parse("# Name\n").err(), Some(GalleryError::MissingSeparator));
    assert_eq!(Header::parse("# Name\n# text\n").err(), Some(GalleryError::MissingSeparator));
    assert_eq!(Header::parse("# Name\n\n# text\n").err(), Some(GalleryError::MissingSeparator));
    assert_eq!(Header::parse("# Name\n# \n").err(), Some(GalleryError::MissingSeparator));
    assert_eq!(Header::parse("# Name\ncode\n").err(), Some(GalleryError::MissingSeparator));
}

#[test]
fn comment_text_must_follow_a_space() {
    let code = script(&["# Name", "#", "#text", "code"]);
    assert_eq!(Header::parse(&code).err(), Some(GalleryError::ExpectedSpaceOrNewline));
    let code = script(&["# Name", "#", "# fine", "##", "code"]);
    assert_eq!(Header::parse(&code).err(), Some(GalleryError::ExpectedSpaceOrNewline));
}

#[test]
fn unknown_directive_fails() {
    let code = script(&["# Name", "#", "", "# example:colour=red"]);
    assert_eq!(Header::parse(&code).err(), Some(GalleryError::InvalidModeline));
    let code = script(&["# Name", "#", "", "# example:tags=a:thumbnail"]);
    assert_eq!(Header::parse(&code).err(), Some(GalleryError::InvalidModeline));
    let code = script(&["# Name", "#", "", "# example:"]);
    assert_eq!(Header::parse(&code).err(), Some(GalleryError::InvalidModeline));
    let code = script(&["# Name", "#", "", "# example:tags=a:"]);
    assert_eq!(Header::parse(&code).err(), Some(GalleryError::InvalidModeline));
}

#[test]
fn thumbnail_must_be_an_index() {
    for bad in ["", "+", "-1", "one", "1 ", "1.0", "99999999999999999999999999"] {
        let code = script(&["# Name", "#", "", &format!("# example:thumbnail={bad}")]);
        assert_eq!(Header::parse(&code).err(), Some(GalleryError::InvalidThumbnail));
    }
}

#[test]
fn the_first_bad_directive_decides_the_error() {
    let code = script(&["# Name", "#", "", "# example:thumbnail=x:what"]);
    assert_eq!(Header::parse(&code).err(), Some(GalleryError::InvalidThumbnail));
    let code = script(&["# Name", "#", "", "# example:what:thumbnail=x"]);
    assert_eq!(Header::parse(&code).err(), Some(GalleryError::InvalidModeline));
}

#[test]
fn the_value_of_a_directive_may_hold_equal_signs() {
    let code = script(&["# Name", "#", "", "# example:tags=a=b"]);
    assert_eq!(Header::parse(&code).unwrap().tags, vec!["official", "a=b"]);
}

#[test]
fn messages_name_the_failure() {
    assert_eq!(GalleryError::PrematureEnd.message(), "premature end of file");
    assert_eq!(GalleryError::ExpectedComment.message(), "expected comment");
    assert_eq!(
        GalleryError::MissingSeparator.message(),
        "second line should be an empty comment"
    );
    assert_eq!(GalleryError::ExpectedSpaceOrNewline.message(), "expected space or newline");
    assert_eq!(GalleryError::InvalidModeline.message(), "invalid modeline");
    assert_eq!(GalleryError::RevParse.message(), "rev-parse yielded incorrect output");
    assert_eq!(GalleryError::NoFileStem.message(), "cannot extract file stem");
    assert_eq!(GalleryError::NotGitAddress.message(), "repository does not end with .git");
    assert_eq!(GalleryError::InvalidThumbnail.message(), "invalid thumbnail index");
    assert_eq!(GalleryError::OutsideRepository.message(), "script lies outside the repository");
    assert_eq!(GalleryError::UnknownProvider.message(), "don't know how to form a script url");
    assert_eq!(GalleryError::Pattern.message(), "cannot compile the image pattern");
}
