use insta_kill::typing::letter_char;
use insta_kill::typing::trim_last_word;
use insta_kill::typing::KeyPress;
use insta_kill::typing::TypedKey;
use insta_kill::typing::TypingState;

fn down(key: TypedKey) -> KeyPress {
    KeyPress { key, pressed: true }
}

fn type_word(t: &mut TypingState, word: &[u8]) {
    for i in word {
        t.push_char(down(TypedKey::Letter(*i)), false, false, true);
    }
}

#[test]
fn letters_are_typed_small_and_with_shift_capital() {
    let mut t = TypingState::new();
    assert!(t.push_char(down(TypedKey::Letter(1)), false, false, true).is_none());
    assert!(t.just_typed_char());
    t.push_char(down(TypedKey::Letter(14)), false, true, true);
    t.push_char(down(TypedKey::Letter(1)), false, false, true);
    assert_eq!(t.text(), "bOb");
    assert_eq!(t.len(), 3);
    assert_eq!(letter_char(0, false), Some('a'));
    assert_eq!(letter_char(25, false), Some('z'));
    assert_eq!(letter_char(25, true), Some('Z'));
    assert_eq!(letter_char(22, true), Some('W'));
    assert_eq!(letter_char(26, false), None);
}

#[test]
fn space_types_an_underscore_and_minus_a_hyphen() {
    let mut t = TypingState::new();
    t.push_char(down(TypedKey::Space), false, false, true);
    t.push_char(down(TypedKey::Minus), false, true, true);
    assert_eq!(t.text(), "_-");
}

#[test]
fn other_keys_type_nothing() {
    let mut t = TypingState::new();
    type_word(&mut t, &[0]);
    t.push_char(down(TypedKey::Other), false, false, true);
    assert_eq!(t.text(), "a");
    assert!(!t.just_typed_char());
    t.push_char(down(TypedKey::Letter(40)), false, false, true);
    assert_eq!(t.text(), "a");
}

#[test]
fn keys_that_go_up_and_keys_without_a_field_are_passed_over() {
    let mut t = TypingState::new();
    t.push_char(KeyPress { key: TypedKey::Letter(0), pressed: false }, false, false, true);
    t.push_char(down(TypedKey::Letter(0)), false, false, false);
    assert!(t.push_char(down(TypedKey::Return), false, false, false).is_none());
    assert!(t
        .push_char(KeyPress { key: TypedKey::Return, pressed: false }, false, false, true)
        .is_none());
    assert_eq!(t.text(), "");
}

#[test]
fn backspace_takes_the_last_character() {
    let mut t = TypingState::new();
    type_word(&mut t, &[0, 1, 2]);
    t.push_char(down(TypedKey::Back), false, false, true);
    assert_eq!(t.text(), "ab");
    assert!(!t.just_typed_char());
    t.push_char(down(TypedKey::Back), false, false, true);
    t.push_char(down(TypedKey::Back), false, false, true);
    t.push_char(down(TypedKey::Back), false, false, true);
    assert_eq!(t.text(), "");
}

#[test]
fn control_with_backspace_or_w_takes_the_last_word() {
    let mut t = TypingState::new();
    type_word(&mut t, &[0, 1, 2]);
    t.push_char(down(TypedKey::Back), true, false, true);
    assert_eq!(t.text(), "");
    type_word(&mut t, &[0, 1, 2]);
    t.push_char(down(TypedKey::Letter(22)), true, false, true);
    assert_eq!(t.text(), "");
    assert!(!t.just_typed_char());
    t.push_char(down(TypedKey::Letter(22)), false, false, true);
    assert_eq!(t.text(), "w");
}

#[test]
fn the_last_word_goes_up_to_the_last_space() {
    let mut text: Vec<char> = "to be or  ".chars().collect();
    trim_last_word(&mut text);
    assert_eq!(text.iter().collect::<String>(), "to be ");
    trim_last_word(&mut text);
    assert_eq!(text.iter().collect::<String>(), "to ");
    trim_last_word(&mut text);
    assert_eq!(text.iter().collect::<String>(), "");
    trim_last_word(&mut text);
    assert_eq!(text.iter().collect::<String>(), "");
    let mut tabs: Vec<char> = "a b\t\n".chars().collect();
    trim_last_word(&mut tabs);
    assert_eq!(tabs.iter().collect::<String>(), "a ");
}

#[test]
fn a_name_has_at_most_sixteen_characters() {
    let mut t = TypingState::new();
    type_word(&mut t, &[0; 20]);
    assert_eq!(t.text(), "aaaaaaaaaaaaaaaa");
    assert_eq!(t.len(), 16);
    t.push_char(down(TypedKey::Letter(22)), true, false, true);
    assert_eq!(t.len(), 16);
    t.push_char(down(TypedKey::Back), false, false, true);
    assert_eq!(t.len(), 15);
    t.push_char(down(TypedKey::Letter(1)), false, false, true);
    assert_eq!(t.text(), "aaaaaaaaaaaaaaab");
}

#[test]
fn return_submits_what_has_been_typed() {
    let mut t = TypingState::new();
    type_word(&mut t, &[1, 14, 1]);
    let name = t.push_char(down(TypedKey::Return), false, false, true).unwrap();
    assert_eq!(name.0, "bob");
    assert_eq!(t.text(), "bob");
    assert!(t.just_typed_char());
    t.clear_buffer_text();
    assert_eq!(t.text(), "");
    let empty = t.push_char(down(TypedKey::Return), true, true, true).unwrap();
    assert_eq!(empty.0, "");
}

#[test]
fn the_keys_of_a_tick_are_taken_in_order() {
    let mut t = TypingState::default();
    let keys = vec![
        down(TypedKey::Letter(0)),
        down(TypedKey::Return),
        down(TypedKey::Letter(1)),
        KeyPress { key: TypedKey::Letter(2), pressed: false },
        down(TypedKey::Back),
        down(TypedKey::Letter(3)),
        down(TypedKey::Return),
    ];
    let names = t.push_chars(&keys, false, false, true);
    assert_eq!(names.len(), 2);
    assert_eq!(names[0].0, "a");
    assert_eq!(names[1].0, "ad");
    assert_eq!(t.text(), "ad");
    let none = t.push_chars(&keys, false, false, false);
    assert!(none.is_empty());
    assert_eq!(t.text(), "ad");
}
