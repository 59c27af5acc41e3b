use example_gallery::text::{
    append_range, chomp_piece, copy_range, equals, find_from, has_prefix, has_suffix, read_index,
    split_lines, split_on, split_pieces, starts_with, to_chars, to_text,
};

fn strings(rows: Vec<Vec<char>>) -> Vec<String> {
    rows.into_iter().map(|r| r.into_iter().collect()).collect()
}

#[test]
fn chars_and_text_round_trip() {
    let chars = to_chars("héllo");
    assert_eq!(chars, vec!['h', 'é', 'l', 'l', 'o']);
    assert_eq!(to_text(&chars, 1, 4), "éll");
    assert_eq!(to_text(&chars, 2, 2), "");
}

#[test]
fn pieces_keep_their_line_feeds() {
    assert_eq!(strings(split_pieces(&to_chars("a\nb\r\n\nc"))), vec!["a\n", "b\r\n", "\n", "c"]);
    assert_eq!(strings(split_pieces(&to_chars("a\n"))), vec!["a\n"]);
    assert!(split_pieces(&to_chars("")).is_empty());
}

#[test]
fn lines_agree_with_std() {
    for text in ["", "\n", "a", "a\n", "a\nb", "a\r\nb\r\n", "a\rb\n", "a\n\nb\n", "\r\n", "a\r", "\n\n"] {
        let want: Vec<String> = text.lines().map(|l| l.to_owned()).collect();
        assert_eq!(strings(split_lines(&to_chars(text))), want, "{text:?}");
    }
}

#[test]
fn split_agrees_with_std() {
    for text in ["", ":", "a", "a:b", "a::b", ":a:", "a:b:c"] {
        let want: Vec<String> = text.split(':').map(|l| l.to_owned()).collect();
        assert_eq!(strings(split_on(&to_chars(text), ':')), want, "{text:?}");
    }
}

#[test]
fn find_from_stops_at_the_first_occurrence() {
    let chars = to_chars("a=b=c");
    assert_eq!(find_from(&chars, 0, '='), 1);
    assert_eq!(find_from(&chars, 2, '='), 3);
    assert_eq!(find_from(&chars, 4, '='), 5);
    assert_eq!(find_from(&chars, 5, '='), 5);
}

#[test]
fn prefix_suffix_and_equality() {
    let chars = to_chars("# example:tags");
    assert!(has_prefix(&chars, "# example:"));
    assert!(has_prefix(&chars, ""));
    assert!(!has_prefix(&chars, "# Example:"));
    assert!(!has_prefix(&to_chars("# ex"), "# example:"));
    assert!(has_suffix(&chars, "tags"));
    assert!(!has_suffix(&chars, "tag"));
    assert!(!has_suffix(&to_chars("it"), ".git"));
    assert!(equals(&chars, "# example:tags"));
    assert!(!equals(&chars, "# example:tagz"));
    assert!(!equals(&chars, "# example:tag"));
}

#[test]
fn index_agrees_with_std() {
    let max = usize::MAX.to_string();
    let over = format!("{}0", usize::MAX);
    let next = {
        let mut digits: Vec<u8> = max.bytes().collect();
        let last = digits.len() - 1;
        digits[last] += 1;
        String::from_utf8(digits).unwrap()
    };
    for text in [
        "0", "7", "42", "007", "+5", "+0", "", "+", "-", "-3", "++1", "1+", " 1", "1 ", "1_0",
        "٣", "12a", max.as_str(), over.as_str(), next.as_str(),
    ] {
        assert_eq!(read_index(&to_chars(text)), text.parse::<usize>().ok(), "{text:?}");
    }
    assert_eq!(read_index(&to_chars("42")), Some(42));
    assert_eq!(read_index(&to_chars(&max)), Some(usize::MAX));
    assert_eq!(read_index(&to_chars(&next)), None);
}

#[test]
fn ranges_are_copied_and_appended() {
    let chars = to_chars("abcdef");
    assert_eq!(copy_range(&chars, 1, 3), vec!['b', 'c']);
    assert_eq!(copy_range(&chars, 0, 6), chars);
    assert!(copy_range(&chars, 6, 6).is_empty());
    let mut text = "x".to_owned();
    append_range(&mut text, &chars, 2, 5);
    assert_eq!(text, "xcde");
    append_range(&mut text, &chars, 3, 3);
    assert_eq!(text, "xcde");
}

#[test]
fn a_piece_loses_its_line_ending_only() {
    for (piece, want) in [
        ("a\n", "a"),
        ("a\r\n", "a"),
        ("a\r", "a\r"),
        ("a", "a"),
        ("\n", ""),
        ("\r\n", ""),
        ("", ""),
        ("a\r\r\n", "a\r"),
    ] {
        assert_eq!(chomp_piece(&to_chars(piece)), to_chars(want), "{piece:?}");
    }
}

#[test]
fn pieces_put_together_are_the_text() {
    for text in ["", "a", "a\n", "\n\na\r\nb", "x\ny\nz\n"] {
        let joined: String = split_pieces(&to_chars(text)).into_iter().flatten().collect();
        assert_eq!(joined, text);
    }
}

#[test]
fn starts_with_compares_from_the_start() {
    assert!(starts_with(&to_chars("/repo/a"), &to_chars("/repo")));
    assert!(starts_with(&to_chars("/repo"), &to_chars("/repo")));
    assert!(starts_with(&to_chars("/repo"), &to_chars("")));
    assert!(!starts_with(&to_chars("/rep"), &to_chars("/repo")));
    assert!(!starts_with(&to_chars("x/repo"), &to_chars("/repo")));
}
