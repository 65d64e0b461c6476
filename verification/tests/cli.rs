use devchain::cli::{is_end_marker, is_end_word, parse_block_index, parse_number, MenuChoice};

#[test]
fn menu_choices_by_number() {
    assert_eq!(MenuChoice::parse("1\n"), MenuChoice::ViewBlockchain);
    assert_eq!(MenuChoice::parse("2\n"), MenuChoice::MineSolo);
    assert_eq!(MenuChoice::parse("3\n"), MenuChoice::TackleRaid);
    assert_eq!(MenuChoice::parse("4\n"), MenuChoice::ExecuteFromLedger);
    assert_eq!(MenuChoice::parse("5\n"), MenuChoice::ManageGuild);
    assert_eq!(MenuChoice::parse("6\n"), MenuChoice::ViewProfile);
    assert_eq!(MenuChoice::parse("7\n"), MenuChoice::Exit);
    assert_eq!(MenuChoice::parse("  exit \r\n"), MenuChoice::Exit);
}

#[test]
fn anything_else_is_no_menu_choice() {
    for line in ["", "\n", "8", "0", "EXIT", "1 2", "one", "11", "+1"] {
        assert_eq!(MenuChoice::parse(line), MenuChoice::Invalid, "{:?}", line);
    }
}

#[test]
fn end_marker_in_any_case_with_whitespace_around() {
    assert!(is_end_marker("END\n"));
    assert!(is_end_marker("  end \r\n"));
    assert!(is_end_marker("End"));
    assert!(!is_end_marker("END."));
    assert!(!is_end_marker("E ND"));
    assert!(!is_end_marker(""));
    assert!(!is_end_marker("return END"));
    assert!(is_end_word("END"));
    assert!(!is_end_word("end"));
}

#[test]
fn numbers_are_plain_decimal_numerals() {
    assert_eq!(parse_number("0"), Some(0));
    assert_eq!(parse_number("42"), Some(42));
    assert_eq!(parse_number("+7"), Some(7));
    assert_eq!(parse_number("007"), Some(7));
    assert_eq!(parse_number("18446744073709551615"), Some(u64::MAX));
    assert_eq!(parse_number("18446744073709551616"), None);
    assert_eq!(parse_number("99999999999999999999999"), None);
    assert_eq!(parse_number(""), None);
    assert_eq!(parse_number("+"), None);
    assert_eq!(parse_number("-1"), None);
    assert_eq!(parse_number("1 "), None);
    assert_eq!(parse_number("1_000"), None);
    assert_eq!(parse_number("١٢"), None);
    for s in ["0", "42", "+7", "007", "", "+", "-1", "++1", "18446744073709551616", "1e3"] {
        assert_eq!(parse_number(s), s.parse::<u64>().ok(), "{:?}", s);
    }
}

#[test]
fn block_index_falls_back_to_zero() {
    assert_eq!(parse_block_index(" 3\n"), 3);
    assert_eq!(parse_block_index("three"), 0);
    assert_eq!(parse_block_index(""), 0);
    assert_eq!(parse_block_index("-2"), 0);
    assert_eq!(parse_block_index("18446744073709551616"), 0);
}
