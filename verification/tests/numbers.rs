use bench_viewer::benchmark::Parser;
use bench_viewer::error::ErrorKind;
use bench_viewer::number::normalize;

#[test]
fn grouped_tokens_parse_like_plain_ones() {
    assert_eq!(normalize("2,175"), Some(2175));
    assert_eq!(normalize("2175"), Some(2175));
    assert_eq!(normalize("22,613"), Some(22613));
    assert_eq!(normalize("22613"), Some(22613));
    assert_eq!(normalize("60,563,177"), Some(60563177));
    assert_eq!(normalize("60563177"), Some(60563177));
}

#[test]
fn plain_digits_parse() {
    assert_eq!(normalize("0"), Some(0));
    assert_eq!(normalize("7"), Some(7));
    assert_eq!(normalize("186"), Some(186));
    assert_eq!(normalize("007"), Some(7));
    assert_eq!(normalize("1234567890"), Some(1234567890));
}

#[test]
fn separators_count_nowhere() {
    assert_eq!(normalize(",1"), Some(1));
    assert_eq!(normalize("1,"), Some(1));
    assert_eq!(normalize("1,,2"), Some(12));
    assert_eq!(normalize("1,2,3,4"), Some(1234));
    assert_eq!(normalize(",-,5"), Some(-5));
}

#[test]
fn limits_of_the_range() {
    assert_eq!(normalize("2147483647"), Some(i32::MAX));
    assert_eq!(normalize("2,147,483,647"), Some(i32::MAX));
    assert_eq!(normalize("2147483648"), None);
    assert_eq!(normalize("2,147,483,648"), None);
    assert_eq!(normalize("-2147483648"), Some(i32::MIN));
    assert_eq!(normalize("-2147483649"), None);
    assert_eq!(normalize("99999999999999999999999999999999"), None);
    assert_eq!(normalize("-99999999999999999999999999999999"), None);
    assert_eq!(normalize("00000000000000000000000000000001"), Some(1));
}

#[test]
fn signs_are_read_as_in_an_integer_literal() {
    assert_eq!(normalize("+5"), Some(5));
    assert_eq!(normalize("-5"), Some(-5));
    assert_eq!(normalize("-0"), Some(0));
    assert_eq!(normalize("+"), None);
    assert_eq!(normalize("-"), None);
    assert_eq!(normalize("+-5"), None);
    assert_eq!(normalize("--5"), None);
    assert_eq!(normalize("5-"), None);
    assert_eq!(normalize("5+3"), None);
}

#[test]
fn what_is_no_number_is_refused() {
    assert_eq!(normalize(""), None);
    assert_eq!(normalize(","), None);
    assert_eq!(normalize(",,,"), None);
    assert_eq!(normalize("abc"), None);
    assert_eq!(normalize("12a"), None);
    assert_eq!(normalize("a12"), None);
    assert_eq!(normalize("1.5"), None);
    assert_eq!(normalize("1e3"), None);
    assert_eq!(normalize(" 1"), None);
    assert_eq!(normalize("1 "), None);
    assert_eq!(normalize("0x10"), None);
    assert_eq!(normalize("\u{ff11}\u{ff12}"), None);
    assert_eq!(normalize("\u{0661}"), None);
}

#[test]
fn normalize_agrees_with_the_standard_parse() {
    let tokens = [
        "0", "1", "12", "2,175", "22,613", "10,662", "60,563,177", "2147483647", "2147483648",
        "-2147483648", "-2147483649", "+1", "-1", "+", "-", "", "x", "1x", "x1", "1,000,000,000",
        "4,294,967,296", "000", "-000", "9,9,9", "3000000000", "21474836470",
    ];
    for token in tokens {
        let bare: String = token.chars().filter(|c| *c != ',').collect();
        assert_eq!(normalize(token), bare.parse::<i32>().ok(), "token {:?}", token);
    }
}

#[test]
fn parse_bench_num_reports_the_token() {
    assert_eq!(Parser::parse_bench_num("2,175"), Ok(2175));
    assert_eq!(Parser::parse_bench_num("22,613"), Ok(22613));
    assert_eq!(Parser::parse_bench_num("10,662"), Ok(10662));
    assert_eq!(Parser::parse_bench_num("186"), Ok(186));
    assert_eq!(
        Parser::parse_bench_num("1,2x"),
        Err(ErrorKind::MalformedNumber("1,2x".to_owned()))
    );
    assert_eq!(Parser::parse_bench_num(""), Err(ErrorKind::MalformedNumber(String::new())));
    assert_eq!(
        Parser::parse_bench_num("4,294,967,296"),
        Err(ErrorKind::MalformedNumber("4,294,967,296".to_owned()))
    );
}
