use rust_basics::basics::{
    add, add_bang, day_period, parse_num, str_len, ParseErrorKind, ShapeKind, User,
};

#[test]
fn add_three_and_four() {
    assert_eq!(add(3, 4), 7);
    assert_eq!(add(-10, 4), -6);
    assert_eq!(add(i32::MAX, 0), i32::MAX);
}

#[test]
fn str_len_counts_bytes() {
    assert_eq!(str_len(&String::from("hi")), 2);
    assert_eq!(str_len(&String::new()), 0);
    assert_eq!(str_len(&String::from("你好")), 6);
}

#[test]
fn add_bang_appends_one_mark() {
    let mut s = String::from("hi");
    add_bang(&mut s);
    assert_eq!(s, "hi!");
    add_bang(&mut s);
    assert_eq!(s, "hi!!");
}

#[test]
fn parse_num_accepts_decimal_text() {
    assert_eq!(parse_num("42").unwrap(), 42);
    assert_eq!(parse_num("-17").unwrap(), -17);
    assert_eq!(parse_num("+8").unwrap(), 8);
    assert_eq!(parse_num("2147483647").unwrap(), i32::MAX);
    assert_eq!(parse_num("-2147483648").unwrap(), i32::MIN);
    assert_eq!(parse_num("007").unwrap(), 7);
}

#[test]
fn parse_num_rejects_other_text() {
    assert!(parse_num("abc").is_err());
    assert!(parse_num("").is_err());
    assert!(parse_num("-").is_err());
    assert!(parse_num("+").is_err());
    assert!(parse_num(" 1").is_err());
    assert!(parse_num("1.5").is_err());
    assert!(parse_num("2147483648").is_err());
    assert!(parse_num("-2147483649").is_err());
    assert_eq!(parse_num("abc").unwrap_err().message(), "invalid digit found in string");
}

#[test]
fn user_greets_and_ages() {
    let mut user = User::new("小明", 28);
    assert_eq!(user.greeting(), "我是 小明，28 歲");
    user.have_birthday();
    assert_eq!(user.age, 29);
    assert_eq!(user.name, "小明");
    assert_eq!(user.greeting(), "我是 小明，29 歲");
}

#[test]
fn greeting_writes_age_in_decimal() {
    assert_eq!(User::new("A", 0).greeting(), "我是 A，0 歲");
    assert_eq!(User::new("B", 10).greeting(), "我是 B，10 歲");
    assert_eq!(User::new("C", 4294967295).greeting(), "我是 C，4294967295 歲");
}

#[test]
fn shape_kinds_are_named() {
    assert_eq!(ShapeKind::Circle.name(), "圓形");
    assert_eq!(ShapeKind::Rectangle.name(), "矩形");
    assert_eq!(ShapeKind::Square.name(), "正方形");
}

#[test]
fn hours_fall_in_periods() {
    assert_eq!(day_period(15), "下午");
    assert_eq!(day_period(1), "上午");
    assert_eq!(day_period(12), "上午");
    assert_eq!(day_period(13), "下午");
    assert_eq!(day_period(17), "下午");
    assert_eq!(day_period(0), "其他");
    assert_eq!(day_period(18), "其他");
    assert_eq!(day_period(-3), "其他");
}

#[test]
fn parse_num_names_the_error_kind() {
    let cases = [
        ("", ParseErrorKind::Empty),
        ("abc", ParseErrorKind::InvalidDigit),
        ("-", ParseErrorKind::InvalidDigit),
        ("+", ParseErrorKind::InvalidDigit),
        ("+-5", ParseErrorKind::InvalidDigit),
        (" 42", ParseErrorKind::InvalidDigit),
        ("12x", ParseErrorKind::InvalidDigit),
        ("4\u{4e00}", ParseErrorKind::InvalidDigit),
        ("2147483648", ParseErrorKind::PosOverflow),
        ("+99999999999", ParseErrorKind::PosOverflow),
        ("-2147483649", ParseErrorKind::NegOverflow),
        ("99999999999x", ParseErrorKind::PosOverflow),
        ("-99999999999x", ParseErrorKind::NegOverflow),
        ("2147483647x", ParseErrorKind::InvalidDigit),
    ];
    for (text, kind) in cases {
        assert_eq!(*parse_num(text).unwrap_err().kind(), kind, "{:?}", text);
    }
}

#[test]
fn parse_num_errors_agree_with_std() {
    let texts = [
        "", "abc", "-", "+", "+-5", " 42", "12x", "2147483648", "-2147483649",
        "99999999999x", "-99999999999x", "2147483647x", "1 2", "\u{661}",
    ];
    for text in texts {
        let std_error = text.parse::<i32>().unwrap_err();
        assert_eq!(parse_num(text).unwrap_err().message(), std_error.to_string(), "{:?}", text);
    }
    for text in ["0", "-0", "+0", "123", "-2147483648", "2147483647", "0000000000000000001"] {
        assert_eq!(parse_num(text).unwrap(), text.parse::<i32>().unwrap());
    }
}

#[test]
fn str_len_grows_by_one_after_add_bang() {
    let mut s = String::from("小明");
    let before = str_len(&s);
    add_bang(&mut s);
    assert_eq!(str_len(&s), before + 1);
}
