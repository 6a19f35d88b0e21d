//! Color strings: exactly six hexadecimal digits, or nothing.

use headless_display::color::{string_to_color, Rgb};
use headless_display::compositor::make_primitive_style;

#[test]
fn full_white_parses() {
    let c = string_to_color(&"FFFFFF".to_string());
    assert_eq!(c, Some(Rgb { r: 255, g: 255, b: 255 }));
}

#[test]
fn non_hex_fails() {
    assert_eq!(string_to_color(&"ZZZZZZ".to_string()), None);
    assert_eq!(string_to_color(&"FFFFFG".to_string()), None);
    assert_eq!(string_to_color(&"      ".to_string()), None);
}

#[test]
fn wrong_length_fails() {
    assert_eq!(string_to_color(&"FFF".to_string()), None);
    assert_eq!(string_to_color(&"FFFFFFF".to_string()), None);
    assert_eq!(string_to_color(&"FFFFFF00".to_string()), None);
    assert_eq!(string_to_color(&"".to_string()), None);
}

#[test]
fn mixed_case_and_exact_values() {
    assert_eq!(
        string_to_color(&"00ff7F".to_string()),
        Some(Rgb { r: 0x00, g: 0xFF, b: 0x7F })
    );
    assert_eq!(
        string_to_color(&"AbCdEf".to_string()),
        Some(Rgb { r: 0xAB, g: 0xCD, b: 0xEF })
    );
    assert_eq!(
        string_to_color(&"123456".to_string()),
        Some(Rgb { r: 0x12, g: 0x34, b: 0x56 })
    );
}

#[test]
fn malformed_color_leaves_field_at_default() {
    // A bad color string is dropped at render time: the element keeps its
    // default for that field rather than failing.
    let style = make_primitive_style(&Some("ZZZZZZ".to_string()), &Some(2), &Some("8000FF".to_string()));
    assert_eq!(style.stroke_color, None);
    assert_eq!(style.stroke_width, Some(2));
    assert_eq!(style.fill_color, Some(Rgb { r: 0x80, g: 0x00, b: 0xFF }));
}

#[test]
fn primitive_style_unset_fields() {
    let style = make_primitive_style(&None, &None, &None);
    assert_eq!(style.stroke_color, None);
    assert_eq!(style.stroke_width, None);
    assert_eq!(style.fill_color, None);
}
