use epoll_router::ids::new_id;
use epoll_router::text::{split, split_inclusive, split_once, strip_prefix, trim};

#[test]
fn split_keeps_empty_parts() {
    assert_eq!(split("a,,b,", ','), vec!["a", "", "b", ""]);
    assert_eq!(split("", ','), vec![""]);
    assert_eq!(split("é,ü", ','), vec!["é", "ü"]);
}

#[test]
fn split_once_takes_the_first_separator() {
    assert_eq!(split_once("a:b:c", ':'), Some(("a".to_string(), "b:c".to_string())));
    assert_eq!(split_once(":", ':'), Some((String::new(), String::new())));
    assert_eq!(split_once("abc", ':'), None);
}

#[test]
fn split_inclusive_keeps_the_separator() {
    assert_eq!(split_inclusive("Mock response to: x", ' '), vec!["Mock ", "response ", "to: ", "x"]);
    assert_eq!(split_inclusive("a b ", ' '), vec!["a ", "b "]);
    assert_eq!(split_inclusive("  ", ' '), vec![" ", " "]);
    assert!(split_inclusive("", ' ').is_empty());
    for text in ["a b", " a", "a  b ", "ä ö\tü ", ""] {
        let expected: Vec<&str> = text.split_inclusive(' ').collect();
        assert_eq!(split_inclusive(text, ' '), expected);
        assert_eq!(split_inclusive(text, ' ').concat(), text);
    }
}

#[test]
fn trim_takes_all_unicode_white_space() {
    assert_eq!(trim(" \t a b\u{a0}\u{3000}\u{2003}\n"), "a b");
    assert_eq!(trim(" \u{85} "), "");
    assert_eq!(trim("\u{200b}x"), "\u{200b}x");
    for code in 0..=0x10ffffu32 {
        if let Some(c) = char::from_u32(code) {
            if c.is_whitespace() {
                assert_eq!(trim(&format!("{c}x{c}")), "x");
            }
        }
    }
}

#[test]
fn white_space_is_the_listed_characters() {
    let listed = |code: u32| {
        (0x9..=0xd).contains(&code)
            || (0x2000..=0x200a).contains(&code)
            || [0x20, 0x85, 0xa0, 0x1680, 0x2028, 0x2029, 0x202f, 0x205f, 0x3000].contains(&code)
    };
    for code in 0..=0x10ffffu32 {
        if let Some(c) = char::from_u32(code) {
            assert_eq!(c.is_whitespace(), listed(code), "{code:x}");
        }
    }
}

#[test]
fn prefixes_are_stripped() {
    assert_eq!(strip_prefix("Bearer abc", "Bearer "), Some("abc".to_string()));
    assert_eq!(strip_prefix("Bearer ", "Bearer "), Some(String::new()));
    assert_eq!(strip_prefix("bearer abc", "Bearer "), None);
    assert_eq!(strip_prefix("Bear", "Bearer "), None);
    assert_eq!(epoll_router::text::concat("Bearer ", "abc"), "Bearer abc");
}

#[test]
fn ids_have_the_form_of_a_random_uuid() {
    let id = new_id("msg_");
    let uuid = id.strip_prefix("msg_").unwrap();
    assert_eq!(uuid.len(), 36);
    for (i, c) in uuid.chars().enumerate() {
        match i {
            8 | 13 | 18 | 23 => assert_eq!(c, '-'),
            14 => assert_eq!(c, '4'),
            19 => assert!("89ab".contains(c)),
            _ => assert!("0123456789abcdef".contains(c)),
        }
    }
    assert_ne!(id, new_id("msg_"));
}
