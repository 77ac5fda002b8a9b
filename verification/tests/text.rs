use mumdota::list::{copy_all, find, remove_all};
use mumdota::net::Ipv4Addr;
use mumdota::text::{
    chars_of, concat2, concat3, decimal_string, parse_i64, same_text, same_text_ignoring_ascii_case,
    space, split, starts_with, string_of, trim,
};
use mumdota::ws::messages::ChannelInfo;

#[test]
fn trimming_takes_white_space_from_both_ends() {
    assert_eq!(trim(" \t a b\u{3000}\n"), "a b");
    assert_eq!(trim(" \u{85}"), "");
    for c in 0..0x3100u32 {
        if let Some(c) = char::from_u32(c) {
            assert_eq!(space(c), c.is_whitespace());
        }
    }
}

#[test]
fn splitting_and_joining() {
    assert_eq!(split("a,,b,", ','), vec!["a", "", "b", ""]);
    assert_eq!(split("", ','), vec![""]);
    for text in ["a,,b,", ",", "x"] {
        assert_eq!(split(text, ',').join(","), text);
    }
}

#[test]
fn numbers_read_back() {
    for n in [0u64, 7, 10, 64738, u64::MAX] {
        assert_eq!(decimal_string(n), n.to_string());
    }
    for n in [0i64, -7, 1300, i64::MAX, i64::MIN] {
        assert_eq!(parse_i64(&n.to_string()), Some(n));
    }
    for text in ["", "-", "+", "1 ", "1_0", "0x1", "99999999999999999999"] {
        assert_eq!(parse_i64(text), None);
    }
}

#[test]
fn comparing_and_building() {
    assert!(same_text("ä", "ä") && !same_text("a", "A"));
    assert!(same_text_ignoring_ascii_case("aZ[", "Az["));
    assert!(!same_text_ignoring_ascii_case("ä", "Ä"));
    assert!(starts_with("turns:x", "turn") && !starts_with("tur", "turn"));
    assert_eq!(concat2("a", "b"), "ab");
    assert_eq!(concat3("a", "b", "c"), "abc");
    let chars = chars_of("héllo");
    assert_eq!(string_of(&chars, 1, 3), "él");
    assert_eq!(Ipv4Addr::new(203, 0, 113, 7).dotted(), "203.0.113.7");
}

#[test]
fn lists_by_number() {
    let channel = |id: u32, name: &str| ChannelInfo {
        id,
        name: name.to_string(),
        parent_id: 0,
        description: String::new(),
    };
    let mut list = vec![channel(1, "a"), channel(2, "b"), channel(1, "c"), channel(3, "d")];
    assert_eq!(find(&list, 1), Some(0));
    assert_eq!(find(&list, 3), Some(3));
    assert_eq!(find(&list, 4), None);
    remove_all(&mut list, 1);
    let names: Vec<String> = copy_all(&list).into_iter().map(|c| c.name).collect();
    assert_eq!(names, vec!["b", "d"]);
}
