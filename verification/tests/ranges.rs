use codex_supervisor::ranges::{format_ranges, parse_ranges, ParseError};

#[test]
fn parses_single_number() {
    assert_eq!(parse_ranges("7"), Ok(vec![7]));
}

#[test]
fn parses_list_of_singles() {
    assert_eq!(parse_ranges("3, 5, 9"), Ok(vec![3, 5, 9]));
}

#[test]
fn rejects_empty_input() {
    assert_eq!(parse_ranges("   "), Err(ParseError::Empty));
}

#[test]
fn rejects_non_numeric() {
    assert_eq!(
        parse_ranges("a-b"),
        Err(ParseError::InvalidNumber("a".to_string()))
    );
}

#[test]
fn expands_inclusive_range() {
    assert_eq!(parse_ranges("10-12"), Ok(vec![10, 11, 12]));
}

#[test]
fn parses_mixed_singles_and_ranges() {
    assert_eq!(
        parse_ranges("1-3,7,10-12"),
        Ok(vec![1, 2, 3, 7, 10, 11, 12])
    );
}

#[test]
fn compresses_sorted_numbers() {
    assert_eq!(format_ranges(&[1, 2, 3, 7, 10, 11, 12]), "1-3,7,10-12");
    assert_eq!(format_ranges(&[5]), "5");
    assert_eq!(format_ranges(&[]), "");
}

#[test]
fn refuses_malformed_ranges() {
    assert_eq!(
        parse_ranges("1, 5-2"),
        Err(ParseError::InvalidRange("5-2".to_string()))
    );
    assert_eq!(
        parse_ranges("3-"),
        Err(ParseError::InvalidRange("3-".to_string()))
    );
    assert_eq!(
        parse_ranges(" -3 "),
        Err(ParseError::InvalidRange("-3".to_string()))
    );
    assert_eq!(
        parse_ranges("1-2-3"),
        Err(ParseError::InvalidNumber("2-3".to_string()))
    );
    assert_eq!(
        parse_ranges("1,,2"),
        Err(ParseError::InvalidNumber("".to_string()))
    );
}

#[test]
fn reads_numbers_at_the_edge_of_the_machine_word() {
    let largest = usize::MAX.to_string();
    assert_eq!(parse_ranges(&largest), Ok(vec![usize::MAX]));
    let too_large = format!("{largest}0");
    assert_eq!(
        parse_ranges(&too_large),
        Err(ParseError::InvalidNumber(too_large.clone()))
    );
    assert_eq!(parse_ranges("+7, 007"), Ok(vec![7, 7]));
    assert_eq!(
        parse_ranges("+"),
        Err(ParseError::InvalidNumber("+".to_string()))
    );
    assert_eq!(format_ranges(&[usize::MAX - 1, usize::MAX]), {
        format!("{}-{}", usize::MAX - 1, usize::MAX)
    });
}

#[test]
fn formatting_and_parsing_are_inverse() {
    for nums in [
        vec![0],
        vec![1, 2],
        vec![9, 3, 4, 5, 5, 6],
        vec![1, 3, 5, 7, 8, 9, 100, 101],
    ] {
        assert_eq!(parse_ranges(&format_ranges(&nums)), Ok(nums));
    }
}

#[test]
fn formatting_never_lengthens_a_text() {
    for input in ["1,2,3", " 1 - 3 , 4", "+5", "7-7,8", "010,11"] {
        let nums = parse_ranges(input).expect("valid");
        assert!(format_ranges(&nums).len() <= input.len());
    }
}
