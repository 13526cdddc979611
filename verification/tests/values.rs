//! Plain values: texts, maps, numbers.

use openlogi::binding::action::Action;
use openlogi::binding::button::{ButtonId, GestureDirection};
use openlogi::binding::key_combo::{ApplicationTarget, EmptyTargetError, KeyCombo, ParseComboError};
use openlogi::binding::shape::{default_binding_for, Binding, LongPressBinding};
use openlogi::config::key_trigger::{KeyTrigger, ParseTriggerError};
use openlogi::config::settings::{brightness_from, BrightnessRangeError, ParseColorError, Rgb, SensitivityRangeError, ThumbwheelSensitivity};
use openlogi::config::TouchpadTriggerError;
use openlogi::geometry::{contact_distance, integer_root, vector_length};
use openlogi::hid::{
    dpi_presets_from, optional_dpi_from, Dpi, DpiRangeError, OutOfRange, SmartShiftThreshold,
    TunableTorque,
};
use openlogi::ordered::OrderedMap;
use openlogi::text::{
    joined_with, push_decimal, push_hexadecimal, same_text, strip_prefix, strip_to_nth,
    to_small_letters,
};
use openlogi::touchpad::TouchContact;

#[test]
fn a_map_is_walked_in_the_order_of_its_keys() {
    let mut map: OrderedMap<String, u32> = OrderedMap::new();
    assert!(map.is_empty());
    for (key, value) in [("b", 2), ("a", 1), ("c", 3), ("a", 4)] {
        map.insert(key.to_string(), value);
    }
    assert_eq!(map.len(), 3);
    assert_eq!((map.key_at(0).as_str(), *map.value_at(0)), ("a", 4));
    assert_eq!((map.key_at(2).as_str(), *map.value_at(2)), ("c", 3));
    assert_eq!(map.remove("b"), Some(2));
    assert_eq!(map.remove("b"), None);
    *map.get_mut("c").expect("an entry") = 5;
    *map.get_or_insert("d".to_string(), 6) += 1;
    let mut other: OrderedMap<String, u32> = OrderedMap::new();
    other.insert("c".to_string(), 9);
    other.insert("e".to_string(), 8);
    map.absorb(other);
    assert_eq!(map.get("c"), Some(&5), "what was there stays");
    assert_eq!(map.get("e"), Some(&8));
    map.remove_all(&vec!["a".to_string(), "x".to_string()]);
    assert!(!map.contains_key("a"));
}

#[test]
fn texts_are_taken_apart_and_put_together() {
    assert!(same_text("ä", "ä") && !same_text("ä", "a"));
    assert_eq!(strip_prefix("direct:046d", "direct:"), Some("046d"));
    assert_eq!(strip_prefix("raw:046d", "direct:"), None);
    assert_eq!(strip_to_nth("046d:c08d:unit:1", ':', 2), Some("unit:1"));
    assert_eq!(strip_to_nth("046d", ':', 2), None);
    assert_eq!(
        joined_with(&vec!["a".to_string(), "b".to_string()], ", "),
        "a, b"
    );
    let mut text = String::new();
    push_decimal(&mut text, 0);
    push_decimal(&mut text, 1024);
    push_hexadecimal(&mut text, 0xab, 4);
    assert_eq!(text, "0102400ab");
    assert_eq!(to_small_letters("CASA-1"), "casa-1");
}

#[test]
fn roots_are_rounded_down() {
    assert_eq!(integer_root(0), 0);
    assert_eq!(integer_root(15), 3);
    assert_eq!(integer_root(16), 4);
    assert_eq!(vector_length(3, -4), 5);
    assert_eq!(
        contact_distance(
            TouchContact {
                id: 1,
                x_um: 0,
                y_um: 0
            },
            TouchContact {
                id: 1,
                x_um: 6,
                y_um: 8
            }
        ),
        10
    );
}

#[test]
fn values_outside_their_range_are_refused() {
    assert_eq!(Dpi::try_new(65535), Ok(Dpi::new(65535)));
    assert_eq!(Dpi::try_new(65536), Err(DpiRangeError { value: 65536 }));
    assert_eq!(
        dpi_presets_from(&vec![800, 70000, 80000]),
        Err(DpiRangeError { value: 70000 })
    );
    assert_eq!(
        DpiRangeError { value: 70000 }.message(),
        "DPI must fit the HID++ 16-bit range, got 70000"
    );
    assert_eq!(optional_dpi_from(None), Ok(None));
    assert_eq!(optional_dpi_from(Some(70000)), Err(DpiRangeError { value: 70000 }));
    assert_eq!(SmartShiftThreshold::try_new(0), Err(OutOfRange));
    assert_eq!(SmartShiftThreshold::try_new(255), Err(OutOfRange));
    assert_eq!(TunableTorque::try_new(101), Err(OutOfRange));
    for value in [0, 101, -1, i32::MIN] {
        assert_eq!(ThumbwheelSensitivity::try_new(value), Err(SensitivityRangeError));
    }
    assert_eq!(brightness_from(100), Ok(100));
    assert_eq!(brightness_from(255), Err(BrightnessRangeError));
    assert_eq!(ThumbwheelSensitivity::try_new(100).map(|s| s.value), Ok(100));
}

#[test]
fn colors_are_six_digits_with_or_without_a_hash() {
    assert_eq!(Rgb::parse("#ff0000"), Ok(Rgb::new(0xff, 0, 0)));
    assert_eq!(Rgb::parse("00aAbB"), Ok(Rgb::new(0, 0xaa, 0xbb)));
    for text in ["red", "", "#", "ff00000", "ff000g"] {
        assert_eq!(Rgb::parse(text), Err(ParseColorError));
    }
}

#[test]
fn shortcuts_and_targets_that_name_nothing_are_refused() {
    assert_eq!(KeyCombo::parse(""), Err(ParseComboError));
    assert_eq!(KeyCombo::parse("Cmd+"), Err(ParseComboError));
    assert_eq!(KeyTrigger::parse("shift+"), Err(ParseTriggerError));
    assert_eq!(ApplicationTarget::new("", "Nothing"), Err(EmptyTargetError));
    assert_eq!(
        ApplicationTarget::new("/Applications/Safari.app", "Safari")
            .expect("a target")
            .display_name(),
        "Safari"
    );
}

#[test]
fn a_binding_changes_its_shape_and_keeps_its_press() {
    let mut binding = Binding::Single(Action::Copy);
    binding.upgrade_to_gesture();
    binding.fill_gesture_defaults();
    assert!(binding.is_gesture());
    assert_eq!(binding.click_action(), Action::Copy);
    binding.demote_to_single(Action::Paste);
    assert_eq!(binding, Binding::Single(Action::Copy));
    let press = Binding::LongPress(LongPressBinding::new(Action::Cut, Action::Undo));
    assert_eq!(press.click_action(), Action::Cut);
    assert!(default_binding_for(ButtonId::GestureButton).is_gesture());
    assert!(!default_binding_for(ButtonId::Back).is_gesture());
    assert_eq!(GestureDirection::ALL.len(), 5);
}

#[test]
fn a_refused_trigger_is_named() {
    let message = TouchpadTriggerError(ButtonId::Back).message();
    assert!(message.contains(ButtonId::Back.label()), "{message}");
}

#[test]
fn labels_and_their_keys() {
    assert_eq!(
        Action::translation_key_for_label(Action::Copy.label().as_str()),
        Action::Copy.translation_key()
    );
    assert_eq!(Action::translation_key_for_label("no such label"), None);
    assert_eq!(Action::TypeText("x".to_string()).translation_key(), None);
}
