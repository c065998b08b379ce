use rls_build::text::{lines, trim};

#[test]
fn lines_end_in_newline_or_carriage_return_and_newline() {
    assert_eq!(lines("a\nb\r\n\nc\r"), vec!["a", "b", "", "c\r"]);
    assert_eq!(lines("a\r\r\nb"), vec!["a\r", "b"]);
}

#[test]
fn empty_text_has_no_lines() {
    assert!(lines("").is_empty());
}

#[test]
fn a_lone_newline_is_one_empty_line() {
    assert_eq!(lines("\n"), vec![""]);
    assert_eq!(lines("\r\n"), vec![""]);
    assert_eq!(lines("\r"), vec!["\r"]);
}

#[test]
fn the_last_line_needs_no_ending() {
    assert_eq!(lines("{\"a\":1}\n{\"b\":2}"), lines("{\"a\":1}\n{\"b\":2}\n"));
    assert_ne!(lines("a\r"), lines("a\r\n"));
}

#[test]
fn lines_agree_with_the_standard_library() {
    let alphabet = ['a', '\n', '\r', 'é'];
    let mut texts = vec![String::new()];
    for _ in 0..6 {
        let mut longer = Vec::new();
        for text in &texts {
            for c in alphabet {
                longer.push(format!("{}{}", text, c));
            }
        }
        for text in &longer {
            let expected: Vec<String> = text.lines().map(String::from).collect();
            assert_eq!(lines(text), expected);
        }
        texts = longer;
    }
}

#[test]
fn trim_removes_white_space_around_text() {
    assert_eq!(trim(" \t/usr/lib rust\r\n"), "/usr/lib rust");
    assert_eq!(trim("\n \u{3000}"), "");
    assert_eq!(trim(""), "");
    assert_eq!(trim(&trim("  a b ")), "a b");
}

#[test]
fn trim_agrees_with_the_standard_library_on_every_character() {
    for c in '\u{0}'..=char::MAX {
        let text = format!("{}a{}", c, c);
        assert_eq!(trim(&text), text.trim());
    }
}
