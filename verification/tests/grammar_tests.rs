use shortcuts::binding::Binding;
use shortcuts::keys::{KeyEvent, Modifiers, NamedKey};
use shortcuts::keysym::{keysym_for, named_keysym};

fn mods(ctrl: bool, alt: bool, shift: bool, logo: bool) -> Modifiers {
    Modifiers { ctrl, alt, shift, logo }
}

#[test]
fn format_full_binding() {
    let b = Binding::new(mods(true, true, false, false), Some(String::from("T")));
    assert_eq!(b.format(), "Ctrl+Alt+T");
}

#[test]
fn format_all_modifiers() {
    let b = Binding::new(mods(true, true, true, true), Some(String::from("Return")));
    assert_eq!(b.format(), "Ctrl+Alt+Shift+Super+Return");
}

#[test]
fn format_unset_with_modifiers() {
    let b = Binding::new(mods(true, false, false, true), None);
    assert_eq!(b.format(), "Ctrl+Super");
}

#[test]
fn format_empty_binding() {
    assert_eq!(Binding::unset().format(), "");
}

#[test]
fn parse_full_binding() {
    let b = Binding::parse("Ctrl+Alt+T").unwrap();
    assert_eq!(b, Binding::new(mods(true, true, false, false), Some(String::from("T"))));
}

#[test]
fn parse_is_case_insensitive_on_modifiers() {
    let b = Binding::parse("super+SHIFT+F1").unwrap();
    assert_eq!(b, Binding::new(mods(false, false, true, true), Some(String::from("F1"))));
}

#[test]
fn parse_empty_string_is_unset() {
    let b = Binding::parse("").unwrap();
    assert!(!b.is_set());
    assert_eq!(b, Binding::unset());
}

#[test]
fn parse_all_modifier_string_is_unset() {
    let b = Binding::parse("ctrl+alt").unwrap();
    assert!(!b.is_set());
    assert_eq!(b, Binding::new(mods(true, true, false, false), None));
}

#[test]
fn parse_rejects_empty_token() {
    assert!(Binding::parse("Ctrl+").is_err());
    assert!(Binding::parse("+T").is_err());
}

#[test]
fn parse_rejects_bad_key_name() {
    assert!(Binding::parse("not a key").is_err());
    assert!(Binding::parse("Ctrl+Alt+!").is_err());
}

#[test]
fn parse_format_round_trip() {
    let samples = [
        "Ctrl+Alt+T",
        "Super+Return",
        "Shift+F12",
        "Ctrl+Alt+Shift+Super+space",
        "Ctrl+Super",
        "grave",
        "",
    ];
    for s in samples {
        let b = Binding::parse(s).unwrap();
        let again = Binding::parse(&b.format()).unwrap();
        assert_eq!(again, b);
    }
}

#[test]
fn later_key_token_wins() {
    let b = Binding::parse("Ctrl+T+U").unwrap();
    assert_eq!(b, Binding::new(mods(true, false, false, false), Some(String::from("U"))));
}

#[test]
fn named_key_mapping_samples() {
    assert_eq!(named_keysym(&NamedKey::Enter), Some(String::from("Return")));
    assert_eq!(named_keysym(&NamedKey::Space), Some(String::from("space")));
    assert_eq!(named_keysym(&NamedKey::CapsLock), Some(String::from("Caps_Lock")));
    assert_eq!(named_keysym(&NamedKey::F35), Some(String::from("F35")));
    assert_eq!(named_keysym(&NamedKey::BrightnessUp), Some(String::from("XF86_MonBrightnessUp")));
}

#[test]
fn uncapturable_named_keys_map_to_none() {
    assert_eq!(named_keysym(&NamedKey::Control), None);
    assert_eq!(named_keysym(&NamedKey::Shift), None);
    assert_eq!(named_keysym(&NamedKey::TVPower), None);
    assert_eq!(named_keysym(&NamedKey::MediaPlay), None);
}

#[test]
fn character_keys_map_to_their_name() {
    assert_eq!(keysym_for(&KeyEvent::Character(String::from("a"))), Some(String::from("a")));
    assert_eq!(keysym_for(&KeyEvent::Character(String::from("7"))), Some(String::from("7")));
    assert_eq!(keysym_for(&KeyEvent::Character(String::from(""))), None);
}

#[test]
fn punctuation_character_keys_map_to_platform_names() {
    assert_eq!(keysym_for(&KeyEvent::Character(String::from("!"))), Some(String::from("exclam")));
    assert_eq!(keysym_for(&KeyEvent::Character(String::from(" "))), Some(String::from("space")));
    assert_eq!(keysym_for(&KeyEvent::Character(String::from("_"))), Some(
        String::from("underscore"),
    ));
    assert_eq!(keysym_for(&KeyEvent::Character(String::from("-"))), Some(String::from("minus")));
}

#[test]
fn other_character_keys_map_to_code_point_names() {
    assert_eq!(keysym_for(&KeyEvent::Character(String::from("\u{e9}"))), Some(
        String::from("U00E9"),
    ));
    assert_eq!(keysym_for(&KeyEvent::Character(String::from("\u{1F600}"))), Some(
        String::from("U1F600"),
    ));
}
