use isbn::{as_value, check_10, check_13, Isbn, IsbnParseError, IsbnParseErrorType};

#[test]
fn isnb_10_good() {
    "99921-58-10-7".parse::<Isbn>().unwrap();
}

#[test]
#[should_panic]
fn isbn_10_bad() {
    "99921-58-10-8".parse::<Isbn>().unwrap();
}

#[test]
fn isbn_13_good() {
    "978-0-306-40615-7".parse::<Isbn>().unwrap();
}

#[test]
#[should_panic]
fn isbn_13_bad() {
    "978-0-306-40615-8".parse::<Isbn>().unwrap();
}

#[test]
fn isbn_10_bad_kind() {
    let e = Isbn::from_str("99921-58-10-8").unwrap_err();
    assert_eq!(e.error_type(), IsbnParseErrorType::FailedCheck10);
    assert_eq!(e.raw().as_str(), "99921-58-10-8");
}

#[test]
fn isbn_13_bad_kind() {
    let e = Isbn::from_str("978-0-306-40615-8").unwrap_err();
    assert_eq!(e.error_type(), IsbnParseErrorType::FailedCheck13);
    assert_eq!(e.raw().as_str(), "978-0-306-40615-8");
}

#[test]
fn empty_string_is_wrong_length() {
    let e = Isbn::from_str("").unwrap_err();
    assert_eq!(e.error_type(), IsbnParseErrorType::WrongLength);
    assert_eq!(e.raw().as_str(), "");
}

#[test]
fn five_digits_is_wrong_length() {
    let e = Isbn::from_str("12345").unwrap_err();
    assert_eq!(e.error_type(), IsbnParseErrorType::WrongLength);
    assert_eq!(e.raw().as_str(), "12345");
}

#[test]
fn fourteen_digits_is_wrong_length() {
    let e = Isbn::from_str("12345678901234").unwrap_err();
    assert_eq!(e.error_type(), IsbnParseErrorType::WrongLength);
}

#[test]
fn success_keeps_original_string() {
    let v = Isbn::from_str("99921-58-10-7").unwrap();
    assert_eq!(v.raw().as_str(), "99921-58-10-7");
    let v = Isbn::from_str("978-0-306-40615-7").unwrap();
    assert_eq!(v.raw().as_str(), "978-0-306-40615-7");
}

#[test]
fn success_keeps_extracted_digits() {
    let v = Isbn::from_str("99921-58-10-7").unwrap();
    assert_eq!(v.values(), &vec![9, 9, 9, 2, 1, 5, 8, 1, 0, 7]);
    let v = Isbn::from_str("978-0-306-40615-7").unwrap();
    assert_eq!(v.values(), &vec![9, 7, 8, 0, 3, 0, 6, 4, 0, 6, 1, 5, 7]);
}

#[test]
fn nondigits_do_not_change_the_outcome() {
    assert!(Isbn::from_str("9992158107").is_ok());
    assert!(Isbn::from_str("99921 58 10 7").is_ok());
    assert!(Isbn::from_str("a9b9c9d2e1f5g8h1i0j7k").is_ok());
    assert_eq!(
        Isbn::from_str("9992158108").unwrap_err().error_type(),
        IsbnParseErrorType::FailedCheck10,
    );
    assert!(Isbn::from_str("9780306406157").is_ok());
}

#[test]
fn x_check_character_is_not_a_digit() {
    // A real-world ISBN-10 whose check character is 'X': only nine digits
    // are extracted, so it is rejected for its length, not its checksum.
    let e = Isbn::from_str("0-8044-2957-X").unwrap_err();
    assert_eq!(e.error_type(), IsbnParseErrorType::WrongLength);
}

#[test]
fn digit_values() {
    assert_eq!(as_value('0'), Some(0));
    assert_eq!(as_value('7'), Some(7));
    assert_eq!(as_value('9'), Some(9));
    assert_eq!(as_value('X'), None);
    assert_eq!(as_value('-'), None);
    assert_eq!(as_value(' '), None);
    assert_eq!(as_value('é'), None);
}

#[test]
fn checksum_10_direct() {
    // 9*10+9*9+9*8+2*7+1*6+5*5+8*4+1*3+0*2+7*1 == 330 == 30 * 11
    assert!(check_10(&[9, 9, 9, 2, 1, 5, 8, 1, 0, 7]));
    assert!(!check_10(&[9, 9, 9, 2, 1, 5, 8, 1, 0, 8]));
    assert!(check_10(&[0; 10]));
}

#[test]
fn checksum_13_direct() {
    // 9+21+8+0+3+0+6+12+0+18+1+15+7 == 100
    assert!(check_13(&[9, 7, 8, 0, 3, 0, 6, 4, 0, 6, 1, 5, 7]));
    assert!(!check_13(&[9, 7, 8, 0, 3, 0, 6, 4, 0, 6, 1, 5, 8]));
    assert!(check_13(&[0; 13]));
}

#[test]
fn error_from_raw() {
    let e = IsbnParseError::from_raw(IsbnParseErrorType::WrongLength, "not an isbn");
    assert_eq!(e.error_type(), IsbnParseErrorType::WrongLength);
    assert_eq!(e.raw().as_str(), "not an isbn");
}
