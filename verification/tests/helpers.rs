use early::decimal::u16_to_string;

#[test]
fn prepends_to_non_empty() {
    let v = vec!["bar".to_string(), "baz".to_string()];
    let v = early::extra_iters::prepend_if_not_empty(v, "foo");
    assert_eq!(v, vec!["foo", "bar", "baz"]);
}

#[test]
fn does_not_prepend_to_empty() {
    let v: Vec<String> = vec![];
    let v = early::extra_iters::prepend_if_not_empty(v, "foo");
    let empty: Vec<String> = vec![];
    assert_eq!(v, empty);
}

#[test]
fn empty() {
    let s = "".to_owned();
    assert_eq!("", early::prepend_if_not_empty::prepend_if_not_empty(s, "xyzzy"));
}

#[test]
fn non_empty() {
    let s = "bar".to_owned();
    assert_eq!("foobar", early::prepend_if_not_empty::prepend_if_not_empty(s, "foo"));
}

#[test]
fn renders_single_digit_numbers() {
    assert_eq!("0", u16_to_string(0));
    assert_eq!("7", u16_to_string(7));
}

#[test]
fn renders_multi_digit_numbers() {
    assert_eq!("10", u16_to_string(10));
    assert_eq!("8080", u16_to_string(8080));
    assert_eq!("65535", u16_to_string(65535));
}
