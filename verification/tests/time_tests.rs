use schedule_parser::models::{parse_time_to_seconds, seconds_to_time_string};

#[test]
fn test_parse_time_hhmmss() {
    assert_eq!(parse_time_to_seconds("14:30:00"), Some(52200));
    assert_eq!(parse_time_to_seconds("00:00:00"), Some(0));
    assert_eq!(parse_time_to_seconds("25:00:00"), Some(90000)); // Next day
}

#[test]
fn test_parse_time_hhmm() {
    assert_eq!(parse_time_to_seconds("14:30"), Some(52200));
    assert_eq!(parse_time_to_seconds("00:00"), Some(0));
}

#[test]
fn test_parse_time_seconds() {
    assert_eq!(parse_time_to_seconds("52200"), Some(52200));
    assert_eq!(parse_time_to_seconds("0"), Some(0));
}

#[test]
fn test_seconds_to_time_string() {
    assert_eq!(seconds_to_time_string(52200), "14:30:00");
    assert_eq!(seconds_to_time_string(0), "00:00:00");
    assert_eq!(seconds_to_time_string(90000), "25:00:00");
}

#[test]
fn hours_of_24_and_more_are_kept() {
    assert_eq!(parse_time_to_seconds("24:00:00"), Some(86400));
    assert_eq!(parse_time_to_seconds("26:15"), Some(94500));
    assert_eq!(seconds_to_time_string(86400), "24:00:00");
    assert_eq!(seconds_to_time_string(94500), "26:15:00");
}

#[test]
fn unreadable_times_are_absent() {
    assert_eq!(parse_time_to_seconds(""), None);
    assert_eq!(parse_time_to_seconds("noon"), None);
    assert_eq!(parse_time_to_seconds("12:"), None);
    assert_eq!(parse_time_to_seconds(":30"), None);
    assert_eq!(parse_time_to_seconds("1:2:3:4"), None);
    assert_eq!(parse_time_to_seconds("12:3o"), None);
    assert_eq!(parse_time_to_seconds(" 12:30"), None);
    assert_eq!(parse_time_to_seconds("-5"), None);
    assert_eq!(parse_time_to_seconds("+"), None);
    assert_eq!(parse_time_to_seconds("１２:００"), None);
}

#[test]
fn a_plus_sign_and_leading_zeros_are_read() {
    assert_eq!(parse_time_to_seconds("+90"), Some(90));
    assert_eq!(parse_time_to_seconds("007"), Some(7));
    assert_eq!(parse_time_to_seconds("+1:+2:+3"), Some(3723));
    assert_eq!(parse_time_to_seconds("1:2:3"), Some(3723));
}

#[test]
fn minutes_and_seconds_above_59_are_added_as_they_are() {
    assert_eq!(parse_time_to_seconds("00:90"), Some(5400));
    assert_eq!(parse_time_to_seconds("00:00:75"), Some(75));
}

#[test]
fn times_that_do_not_fit_32_bits_are_absent() {
    assert_eq!(parse_time_to_seconds("4294967295"), Some(4294967295));
    assert_eq!(parse_time_to_seconds("4294967296"), None);
    assert_eq!(parse_time_to_seconds("1193046:28:15"), Some(4294967295));
    assert_eq!(parse_time_to_seconds("1193046:28:16"), None);
    assert_eq!(parse_time_to_seconds("99999999999:00"), None);
}

#[test]
fn written_times_read_back_as_the_same_seconds() {
    for seconds in [0u32, 1, 59, 60, 3599, 3600, 52200, 86399, 86400, 90000, 359999, 360000, 4294967295] {
        let text = seconds_to_time_string(seconds);
        assert_eq!(parse_time_to_seconds(&text), Some(seconds));
    }
}

#[test]
fn read_times_survive_writing_and_reading() {
    for text in ["14:30:00", "14:30", "52200", "25:00:00", "0", "7:5", "+12"] {
        let seconds = parse_time_to_seconds(text).unwrap();
        assert_eq!(parse_time_to_seconds(&seconds_to_time_string(seconds)), Some(seconds));
    }
}

#[test]
fn hours_take_as_many_digits_as_they_need() {
    assert_eq!(seconds_to_time_string(3600 * 100 + 61), "100:01:01");
    assert_eq!(seconds_to_time_string(4294967295), "1193046:28:15");
    assert_eq!(seconds_to_time_string(9), "00:00:09");
}
