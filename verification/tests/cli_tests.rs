use kakuyomu_dump::cli::{
    accept_from, accept_novel, accept_out, accept_to, default_from_value, parse_usize_dec,
    FromError, ToError,
};

#[test]
fn parse_plain_numbers() {
    assert_eq!(parse_usize_dec("0"), Some(0));
    assert_eq!(parse_usize_dec("7"), Some(7));
    assert_eq!(parse_usize_dec("1177354054883819762"), Some(1177354054883819762));
}

#[test]
fn parse_accepts_leading_plus() {
    assert_eq!(parse_usize_dec("+12"), Some(12));
}

#[test]
fn parse_rejects_empty_and_garbage() {
    assert_eq!(parse_usize_dec(""), None);
    assert_eq!(parse_usize_dec("+"), None);
    assert_eq!(parse_usize_dec("12a"), None);
    assert_eq!(parse_usize_dec("-3"), None);
    assert_eq!(parse_usize_dec(" 3"), None);
}

#[test]
fn parse_rejects_overflow() {
    assert_eq!(parse_usize_dec("18446744073709551615"), Some(usize::MAX));
    assert_eq!(parse_usize_dec("18446744073709551616"), None);
    assert_eq!(parse_usize_dec("999999999999999999999999999"), None);
}

#[test]
fn from_defaults_to_one() {
    assert_eq!(accept_from(""), Ok(1));
    assert_eq!(default_from_value(), 1);
}

#[test]
fn from_rejects_zero_and_garbage() {
    assert_eq!(accept_from("0"), Err(FromError::Zero));
    assert_eq!(accept_from("abc"), Err(FromError::NotANumber));
    assert_eq!(accept_from("3"), Ok(3));
}

#[test]
fn to_must_exceed_from() {
    assert_eq!(accept_to("", 5), Ok(None));
    assert_eq!(accept_to("6", 5), Ok(Some(6)));
    assert_eq!(accept_to("5", 5), Err(ToError::NotGreater));
    assert_eq!(accept_to("4", 5), Err(ToError::NotGreater));
    assert_eq!(accept_to("x", 5), Err(ToError::NotANumber));
}

#[test]
fn novel_and_out_take_nonempty_lines() {
    assert_eq!(accept_novel(""), None);
    assert_eq!(accept_novel("1177354054883819762"), Some("1177354054883819762".to_owned()));
    assert_eq!(accept_out(""), None);
    assert_eq!(accept_out("novel.md"), Some("novel.md".to_owned()));
}
