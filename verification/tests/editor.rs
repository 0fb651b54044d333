use aim_room::editor::{tidy_decimal, Editor, Field, MAX_ENTRY};

#[test]
fn first_key_replaces_the_shown_value() {
    let mut e = Editor::open(Field::Fov, b"103".to_vec());
    assert_eq!(e.field(), Field::Fov);
    assert_eq!(e.text().as_slice(), b"103");
    e.type_keys(&['9', '0']);
    assert_eq!(e.text().as_slice(), b"90");
}

#[test]
fn only_digits_and_points_are_typed() {
    let mut e = Editor::open(Field::Sensitivity, b"1".to_vec());
    e.type_keys(&['a', '0', '-', '.', '5', ' ', '\u{e9}']);
    assert_eq!(e.text().as_slice(), b"0.5");
}

#[test]
fn a_rejected_key_does_not_clear_the_field() {
    let mut e = Editor::open(Field::Dpi, b"800".to_vec());
    e.type_keys(&['x']);
    assert_eq!(e.text().as_slice(), b"800");
    e.type_keys(&['4']);
    assert_eq!(e.text().as_slice(), b"4");
}

#[test]
fn typing_stops_at_the_longest_entry() {
    let mut e = Editor::open(Field::Volume, Vec::new());
    let keys: Vec<char> = std::iter::repeat('7').take(MAX_ENTRY + 5).collect();
    e.type_keys(&keys);
    assert_eq!(e.text().len(), MAX_ENTRY);
    assert_eq!(MAX_ENTRY, 12);
}

#[test]
fn backspace_first_clears_then_deletes() {
    let mut e = Editor::open(Field::Gap, b"12".to_vec());
    e.backspace();
    assert!(e.text().is_empty());
    e.backspace();
    assert!(e.text().is_empty());
    e.type_keys(&['3', '4']);
    e.backspace();
    assert_eq!(e.text().as_slice(), b"3");
}

#[test]
fn typing_then_deleting_restores_the_text() {
    let mut e = Editor::open(Field::Crosshair, b"5".to_vec());
    e.type_keys(&['6']);
    let before = e.text().clone();
    e.type_keys(&['1']);
    e.backspace();
    assert_eq!(e.text(), &before);
}

#[test]
fn decimals_lose_trailing_zeros_and_points() {
    assert_eq!(tidy_decimal(b"1.500"), b"1.5".to_vec());
    assert_eq!(tidy_decimal(b"2.000"), b"2".to_vec());
    assert_eq!(tidy_decimal(b"0.125"), b"0.125".to_vec());
    assert_eq!(tidy_decimal(b"3."), b"3".to_vec());
    assert_eq!(tidy_decimal(b""), Vec::<u8>::new());
}
