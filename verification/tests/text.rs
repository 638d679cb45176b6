use dpad_todo::attribute::parse_index;
use dpad_todo::error::NavError;
use dpad_todo::key::{key_from_name, same_text, Key};
use dpad_todo::softkey::{render, softkey_set_label, SoftKeyLabels};

#[test]
fn parse_reads_decimal_digits() {
    assert_eq!(parse_index("0"), Ok(0));
    assert_eq!(parse_index("7"), Ok(7));
    assert_eq!(parse_index("42"), Ok(42));
    assert_eq!(parse_index("007"), Ok(7));
    assert_eq!(parse_index("1234567890"), Ok(1234567890));
}

#[test]
fn parse_takes_one_leading_plus() {
    assert_eq!(parse_index("+7"), Ok(7));
    assert_eq!(parse_index("+0"), Ok(0));
    assert_eq!(parse_index("++7"), Err(NavError::IndexAttributeUnparseable));
    assert_eq!(parse_index("7+"), Err(NavError::IndexAttributeUnparseable));
    assert_eq!(parse_index("+"), Err(NavError::IndexAttributeUnparseable));
}

#[test]
fn parse_rejects_what_is_no_number() {
    let unparseable = Err(NavError::IndexAttributeUnparseable);
    assert_eq!(parse_index(""), unparseable);
    assert_eq!(parse_index("abc"), unparseable);
    assert_eq!(parse_index("-1"), unparseable);
    assert_eq!(parse_index("-0"), unparseable);
    assert_eq!(parse_index(" 1"), unparseable);
    assert_eq!(parse_index("1 "), unparseable);
    assert_eq!(parse_index("1_0"), unparseable);
    assert_eq!(parse_index("1.0"), unparseable);
    assert_eq!(parse_index("0x1"), unparseable);
    assert_eq!(parse_index("true"), unparseable);
    assert_eq!(parse_index("\u{0663}"), unparseable);
    assert_eq!(parse_index("1\u{0663}"), unparseable);
    assert_eq!(parse_index("/"), unparseable);
    assert_eq!(parse_index(":"), unparseable);
}

#[test]
fn parse_reads_up_to_the_largest_index() {
    let largest = usize::MAX.to_string();
    assert_eq!(parse_index(&largest), Ok(usize::MAX));
    assert_eq!(parse_index(&format!("+{}", largest)), Ok(usize::MAX));
    assert_eq!(parse_index(&format!("000{}", largest)), Ok(usize::MAX));
    let too_large = format!("{}", usize::MAX as u128 + 1);
    assert_eq!(parse_index(&too_large), Err(NavError::IndexAttributeUnparseable));
    assert_eq!(parse_index(&format!("{}0", largest)), Err(NavError::IndexAttributeUnparseable));
    assert_eq!(
        parse_index("99999999999999999999999999999999999999999999"),
        Err(NavError::IndexAttributeUnparseable)
    );
    assert_eq!(
        parse_index("99999999999999999999999999999999999999999999x"),
        Err(NavError::IndexAttributeUnparseable)
    );
}

#[test]
fn parse_agrees_with_the_standard_reading_of_an_unsigned_number() {
    let largest = usize::MAX.to_string();
    let beyond = format!("{}1", largest);
    let texts = [
        "", "0", "1", "9", "10", "+3", "-3", "+", "-", "++1", "+-1", "01", "0000", "1a", "a1",
        " 1", "1 ", "1\n", "\t1", "1_000", "1e3", "\u{661}", "1\u{661}", "\u{663}\u{663}", "+\u{663}", largest.as_str(),
        beyond.as_str(), "18446744073709551615", "18446744073709551616", "4294967295",
        "4294967296", "00000000000000000000000000000000000000001",
    ];
    for text in texts {
        assert_eq!(parse_index(text).ok(), text.parse::<usize>().ok(), "text {:?}", text);
    }
}

#[test]
fn same_text_compares_character_by_character() {
    assert!(same_text("", ""));
    assert!(same_text("Enter", "Enter"));
    assert!(!same_text("Enter", "enter"));
    assert!(!same_text("Enter", "Ente"));
    assert!(!same_text("Ente", "Enter"));
    assert!(!same_text("", "a"));
    assert!(same_text("caf\u{e9}", "caf\u{e9}"));
    assert!(!same_text("caf\u{e9}", "cafe"));
    assert!(!same_text("\u{e9}", "ab"));
}

#[test]
fn key_names_map_to_keys() {
    assert_eq!(key_from_name("Enter"), Key::Enter);
    assert_eq!(key_from_name("ArrowUp"), Key::ArrowUp);
    assert_eq!(key_from_name("ArrowDown"), Key::ArrowDown);
    assert_eq!(key_from_name("SoftLeft"), Key::SoftLeft);
    assert_eq!(key_from_name("SoftRight"), Key::SoftRight);
}

#[test]
fn other_names_map_to_the_other_key() {
    assert_eq!(key_from_name("Foo"), Key::Other);
    assert_eq!(key_from_name(""), Key::Other);
    assert_eq!(key_from_name("enter"), Key::Other);
    assert_eq!(key_from_name("Enter "), Key::Other);
    assert_eq!(key_from_name("ArrowLeft"), Key::Other);
    assert_eq!(key_from_name("Backspace"), Key::Other);
    assert_eq!(key_from_name("SoftRightt"), Key::Other);
}

#[test]
fn labels_on_the_input_row_offer_insert() {
    let labels = render(0);
    assert_eq!(
        labels,
        SoftKeyLabels { left: String::new(), center: "Insert".to_string(), right: String::new() }
    );
}

#[test]
fn labels_on_a_task_offer_toggle_and_delete() {
    for index in [1usize, 2, 17, usize::MAX] {
        let labels = render(index);
        assert_eq!(
            labels,
            SoftKeyLabels {
                left: String::new(),
                center: "Toggle".to_string(),
                right: "Delete".to_string(),
            }
        );
    }
}

#[test]
fn set_label_fills_the_three_slots() {
    let labels = softkey_set_label("a", "b", "c");
    assert_eq!(labels.left, "a");
    assert_eq!(labels.center, "b");
    assert_eq!(labels.right, "c");
}
