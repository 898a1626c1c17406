//! Key and mouse combinations.
use tokio_way_core::keys::{
    button_by_name, key_by_name, split_modifiers, KeyCombo, Modifier, Modifiers, MouseButton, MouseCombo,
    KEY_LEFTALT, KEY_LEFTCTRL, KEY_RIGHTALT, KEY_RIGHTMETA,
};
use tokio_way_core::table::KeySet;

fn held(keys: &[u32]) -> KeySet<u32> {
    let mut set: KeySet<u32> = KeySet::new();
    for k in keys {
        set.insert(*k);
    }
    set
}

#[test]
fn a_combo_is_modifiers_and_a_key() {
    let combo = KeyCombo::parse("Alt+F4").unwrap();
    assert_eq!(combo.key, 62);
    assert_eq!(combo.modifiers, Modifiers { shift: false, ctrl: false, alt: true, logo: false });
    assert!(combo.modifiers.contains(Modifier::Alt));
    assert!(!combo.modifiers.contains(Modifier::Super));
}

#[test]
fn case_and_order_do_not_matter() {
    let a = KeyCombo::parse("ctrl+shift+q").unwrap();
    let b = KeyCombo::parse("Q+SHIFT+Control").unwrap();
    let c = KeyCombo::parse("  Shift + q + cTrL ").unwrap();
    assert_eq!(a, b);
    assert_eq!(a, c);
    assert_eq!(a.key, 16);
}

#[test]
fn every_name_of_the_logo_key_is_known() {
    for name in ["super", "logo", "meta", "win", "Super"] {
        let combo = KeyCombo::parse(&format!("{name}+Tab")).unwrap();
        assert!(combo.modifiers.contains(Modifier::Super));
        assert_eq!(combo.key, 15);
    }
}

#[test]
fn an_empty_part_is_refused() {
    assert_eq!(KeyCombo::parse("Alt++F4").unwrap_err(), "empty part in keybind \"Alt++F4\"");
    assert_eq!(KeyCombo::parse("").unwrap_err(), "empty part in keybind \"\"");
    assert_eq!(MouseCombo::parse("Alt+ \u{3000}").unwrap_err(), "empty part in keybind \"Alt+ \u{3000}\"");
}

#[test]
fn two_keys_are_refused() {
    assert_eq!(KeyCombo::parse("A+B").unwrap_err(), "more than one key in keybind \"A+B\"");
}

#[test]
fn modifiers_alone_are_refused() {
    assert_eq!(
        KeyCombo::parse("Alt+Ctrl").unwrap_err(),
        "keybind \"Alt+Ctrl\" names no key, only modifiers"
    );
}

#[test]
fn an_unknown_key_is_refused_as_it_was_written() {
    assert_eq!(
        KeyCombo::parse("Alt+ Foo").unwrap_err(),
        "unknown key \"Foo\" in keybind \"Alt+ Foo\""
    );
    assert_eq!(
        MouseCombo::parse("Alt+F4").unwrap_err(),
        "unknown mouse button \"F4\" in keybind \"Alt+F4\""
    );
}

#[test]
fn keys_have_their_codes() {
    assert_eq!(key_by_name("a"), Some(30));
    assert_eq!(key_by_name("Z"), Some(44));
    assert_eq!(key_by_name("0"), Some(11));
    assert_eq!(key_by_name("9"), Some(10));
    assert_eq!(key_by_name("f12"), Some(88));
    assert_eq!(key_by_name("Escape"), Some(1));
    assert_eq!(key_by_name("esc"), Some(1));
    assert_eq!(key_by_name("Return"), Some(28));
    assert_eq!(key_by_name("PageDown"), Some(109));
    assert_eq!(key_by_name("left"), Some(105));
    assert_eq!(key_by_name("f13"), None);
    assert_eq!(key_by_name(""), None);
}

#[test]
fn buttons_have_their_codes() {
    assert_eq!(button_by_name("LeftClick"), Some(MouseButton(MouseButton::LEFT)));
    assert_eq!(button_by_name("right"), Some(MouseButton(0x111)));
    assert_eq!(button_by_name("MIDDLE"), Some(MouseButton(0x112)));
    assert_eq!(button_by_name("side"), None);
    let combo = MouseCombo::parse("Alt+LeftClick").unwrap();
    assert_eq!(combo.button, MouseButton(0x110));
}

#[test]
fn a_combo_matches_either_physical_modifier() {
    let combo = KeyCombo::parse("Alt+F4").unwrap();
    assert!(combo.matches(62, &held(&[KEY_LEFTALT, 62])));
    assert!(combo.matches(62, &held(&[KEY_RIGHTALT])));
    assert!(!combo.matches(62, &held(&[KEY_LEFTCTRL])));
    assert!(!combo.matches(61, &held(&[KEY_LEFTALT])));
}

#[test]
fn every_modifier_named_must_be_held() {
    let combo = MouseCombo::parse("Super+Ctrl+Right").unwrap();
    let right = MouseButton(MouseButton::RIGHT);
    assert!(combo.matches(right, &held(&[KEY_RIGHTMETA, KEY_LEFTCTRL])));
    assert!(!combo.matches(right, &held(&[KEY_RIGHTMETA])));
    assert!(Modifier::Super.held(&held(&[KEY_RIGHTMETA])));
}

#[test]
fn a_combo_is_split_before_its_key_is_looked_up() {
    let (modifiers, name) = split_modifiers("shift+ Nonsense ").unwrap();
    assert!(modifiers.contains(Modifier::Shift));
    assert_eq!(name, "Nonsense");
}
