use pufferfish::parser::{is_valid_name, is_valid_name_char, parse_names, ParseError};
use pufferfish::tank::{byte_to_hex, populate_tanks, Tank};

#[test]
fn test_name_validation() {
    for valid_name in ["j", "mike", "asdjfasdf", "al'i", "o'brien", "n'n"] {
        assert!(is_valid_name(valid_name));
    }
    for invalid_name in ["'ello", "m''ke", "qwert'"] {
        assert!(!is_valid_name(invalid_name));
    }
}

#[test]
fn test_parser() {
    let good_res = parse_names("What is going on? Must be the w'ind.");
    assert_eq!(
        good_res.unwrap(),
        ["hat", "is", "going", "on", "ust", "be", "the", "w'ind"]
            .map(String::from)
            .to_vec()
    );

    let bad_res_invalid_name = parse_names("'ah', said the fish to the fish.");
    assert!(bad_res_invalid_name.is_err());
    let invalid_name_err = bad_res_invalid_name.unwrap_err();
    assert_eq!(
        invalid_name_err,
        ParseError::InvalidName(String::from("'ah'"))
    );

    let bad_res_dupe_name = parse_names("said the fish to the fish.");
    assert!(bad_res_dupe_name.is_err());
    let dupe_name_err = bad_res_dupe_name.unwrap_err();
    assert_eq!(dupe_name_err, ParseError::DuplicateName(String::from("the")));
}

#[test]
fn test_parser_deterministic() {
    let text = "some fish swim by the reef";
    let first = parse_names(text).unwrap();
    let second = parse_names(text).unwrap();
    assert_eq!(first, second);
    assert_eq!(
        first,
        ["some", "fish", "swim", "by", "the", "reef"]
            .map(String::from)
            .to_vec()
    );
}

#[test]
fn test_tank_from_mask_and_name() {
    let mask = "07997";
    let tank = Tank::from_mask_and_name(String::default(), mask).unwrap();
    let expected = vec![0, 0, 0, 0, 0, 1, 1, 1, 1, 0, 0, 1, 1, 0, 0, 1, 0, 1, 1, 1];
    assert_eq!(tank.cells(), expected);
}

#[test]
fn test_tank_from_mask_rejects_bad_digit() {
    let res = Tank::from_mask_and_name(String::default(), "07x97");
    assert_eq!(res.unwrap_err(), ParseError::InvalidName(String::from("07x97")));
}

#[test]
fn test_populate_tanks() {
    let names = vec![String::from("ab")];
    let tanks = populate_tanks(names).unwrap();
    assert_eq!(*tanks[0].name(), String::from("ab"));
    assert_eq!(
        tanks[0].cells(),
        vec![1, 0, 0, 0, 1, 2, 2, 1, 2, 0, 0, 2, 2, 0, 0, 2, 1, 2, 2, 1]
    );
}

#[test]
fn test_populate_tanks_swizzle() {
    // "a'" renders the glyph of 'a' and then exchanges the two halves of the
    // flattened grid, split at index 11.
    let tanks = populate_tanks(vec![String::from("a'")]).unwrap();
    assert_eq!(
        tanks[0].cells(),
        vec![1, 1, 0, 0, 1, 0, 1, 1, 1, 0, 0, 0, 0, 0, 1, 1, 1, 1, 0, 0]
    );
}

#[test]
fn test_populate_tanks_rejects_bad_name() {
    let err = populate_tanks(vec![String::from("ok"), String::from("b4d")]).unwrap_err();
    assert_eq!(err, ParseError::InvalidName(String::from("b4d")));
}

#[test]
fn test_byte_to_hex_values() {
    assert_eq!(byte_to_hex(b'0'), 0);
    assert_eq!(byte_to_hex(b'7'), 7);
    assert_eq!(byte_to_hex(b'9'), 9);
    assert_eq!(byte_to_hex(b'a'), 10);
    assert_eq!(byte_to_hex(b'f'), 15);
    assert_eq!(byte_to_hex(b'A'), 10);
    assert_eq!(byte_to_hex(b'F'), 15);
}

#[test]
fn test_name_chars() {
    assert!(is_valid_name_char('a'));
    assert!(is_valid_name_char('z'));
    assert!(is_valid_name_char('\''));
    assert!(!is_valid_name_char('A'));
    assert!(!is_valid_name_char('0'));
    assert!(!is_valid_name_char(' '));
}

#[test]
fn test_error_labels() {
    assert_eq!(
        ParseError::InvalidName(String::from("x")).name(),
        "invalid name found"
    );
    assert_eq!(
        ParseError::DuplicateName(String::from("x")).name(),
        "duplicate name found"
    );
}

#[test]
fn test_from_cells_shape() {
    assert!(Tank::from_cells(String::from("x"), vec![0; 20]).is_some());
    assert!(Tank::from_cells(String::from("x"), vec![0; 19]).is_none());
}
