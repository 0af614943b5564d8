use bevy_gltf_collider::names::{
    char_is_whitespace, chars_of, end_of_last_occurrence, same_trimmed, starts_with,
};

fn text(s: &str) -> Vec<char> {
    s.chars().collect()
}

#[test]
fn the_characters_of_a_text() {
    assert_eq!(chars_of("a\u{e9}\u{1F600}z"), vec!['a', '\u{e9}', '\u{1F600}', 'z']);
    assert_eq!(chars_of(""), Vec::<char>::new());
}

#[test]
fn whitespace_is_what_the_standard_library_trims() {
    let mut code: u32 = 0;
    while code <= 0x11000 {
        if let Some(c) = char::from_u32(code) {
            assert_eq!(char_is_whitespace(c), c.is_whitespace(), "U+{:04X}", code);
        }
        code += 1;
    }
    assert!(!char_is_whitespace('\u{10FFFF}'));
}

#[test]
fn a_text_starts_with_a_prefix() {
    assert!(starts_with(&text("collider"), &text("collider")));
    assert!(starts_with(&text("collider_foo"), &text("collider")));
    assert!(starts_with(&text("anything"), &text("")));
    assert!(!starts_with(&text("collide"), &text("collider")));
    assert!(!starts_with(&text(" collider"), &text("collider")));
    assert!(!starts_with(&text("Collider"), &text("collider")));
    assert!(!starts_with(&text(""), &text("collider")));
}

#[test]
fn what_follows_the_last_occurrence() {
    let separator = text("collider_");
    assert_eq!(end_of_last_occurrence(&text("collider_foo"), &separator), Some(9));
    assert_eq!(end_of_last_occurrence(&text("collider_a_collider_b"), &separator), Some(20));
    assert_eq!(end_of_last_occurrence(&text("collider_"), &separator), Some(9));
    assert_eq!(end_of_last_occurrence(&text("xcollider_"), &separator), Some(10));
    assert_eq!(end_of_last_occurrence(&text("collider"), &separator), None);
    assert_eq!(end_of_last_occurrence(&text("collider-foo"), &separator), None);
    assert_eq!(end_of_last_occurrence(&text(""), &separator), None);
    assert_eq!(end_of_last_occurrence(&text("aaa"), &text("aa")), Some(3));
    assert_eq!(end_of_last_occurrence(&text("abc"), &text("")), Some(3));
}

#[test]
fn texts_are_compared_without_the_whitespace_round_them() {
    for (a, b) in [
        ("foo", "foo"),
        ("  foo", "foo\t\n"),
        ("\u{3000}foo bar\u{a0}", " foo bar"),
        ("", "   "),
        (" \r\n", ""),
        ("a", " a "),
    ] {
        assert!(same_trimmed(&text(a), &text(b)), "{:?} {:?}", a, b);
        assert_eq!(a.trim() == b.trim(), true);
    }
    for (a, b) in [
        ("foo", "fo"),
        ("foo", "f oo"),
        ("foo bar", "foobar"),
        ("foo", "Foo"),
        ("", "x"),
        ("a b", "a  b"),
    ] {
        assert!(!same_trimmed(&text(a), &text(b)), "{:?} {:?}", a, b);
        assert_eq!(a.trim() == b.trim(), false);
    }
}
