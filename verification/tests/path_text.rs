use rls_build::path::src_path;
use rls_build::path_text::{path_bytes, path_text};

#[test]
fn unicode_path_is_its_own_text() {
    for path in ["", "/a/b.rs", "/é/→/𝄞.rs", "/\u{10ff7f}"] {
        assert_eq!(path_text(&path.as_bytes().to_vec()), path);
        assert_eq!(path_bytes(path), path.as_bytes());
    }
}

#[test]
fn bytes_that_are_no_text_are_escaped() {
    assert_eq!(path_text(&b"/a/\xff.rs".to_vec()), "/a/\u{10ffff}.rs");
    assert_eq!(path_text(&b"/a/\xfe.rs".to_vec()), "/a/\u{10fffe}.rs");
    assert_eq!(path_text(&b"\x80".to_vec()), "\u{10ff80}");
}

#[test]
fn character_that_is_cut_short_is_escaped() {
    assert_eq!(path_text(&b"\xe2\x86/".to_vec()), "\u{10ffe2}\u{10ff86}/");
    assert_eq!(path_text(&b"\xc3".to_vec()), "\u{10ffc3}");
    assert_eq!(path_text(&b"\xed\xa0\x80".to_vec()), "\u{10ffed}\u{10ffa0}\u{10ff80}");
}

#[test]
fn escape_in_a_path_is_escaped_itself() {
    let path = "/\u{10ffff}".as_bytes().to_vec();
    let text = path_text(&path);
    assert_eq!(text, "/\u{10fff4}\u{10ff8f}\u{10ffbf}\u{10ffbf}");
    assert_eq!(path_bytes(&text), path);
}

#[test]
fn every_path_of_up_to_two_bytes_is_read_back_from_a_text_of_its_own() {
    let mut texts = std::collections::HashSet::new();
    for a in 0..=255u8 {
        assert_eq!(path_bytes(&path_text(&vec![a])), vec![a]);
        assert!(texts.insert(path_text(&vec![a])));
        for b in 0..=255u8 {
            let text = path_text(&vec![a, b]);
            assert_eq!(path_bytes(&text), vec![a, b]);
            assert!(texts.insert(text));
        }
    }
}

#[test]
fn joining_texts_is_joining_paths() {
    let dir = path_text(&b"/\xff".to_vec());
    let file = path_text(&b"\xc3\xa9\xfe.rs".to_vec());
    let joined = src_path(Some(&dir), &file, None).unwrap();
    assert_eq!(joined, path_text(&b"/\xff/\xc3\xa9\xfe.rs".to_vec()));
    assert_eq!(path_bytes(&joined), b"/\xff/\xc3\xa9\xfe.rs".to_vec());
}
