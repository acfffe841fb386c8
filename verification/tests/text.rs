use task_tracker::text::{decimal, join, parse_usize, ParseFailure};

#[test]
fn parse_agrees_with_std() {
    let max = usize::MAX.to_string();
    let above = format!("{}0", usize::MAX);
    let next = {
        let mut digits: Vec<u8> = max.bytes().collect();
        let last = digits.len() - 1;
        digits[last] += 1;
        String::from_utf8(digits).unwrap()
    };
    let inputs: Vec<String> = [
        "", "0", "1", "7", "10", "42", "007", "+5", "+", "-", "-0", "-1", "++1", "+-1", "1+",
        " 1", "1 ", "1_000", "12a", "a12", "0x10", "1.0", "١٢", "９", "18446744073709551615",
        "18446744073709551616", "4294967295", "4294967296", "99999999999999999999999x",
        "9999999999999999999x9", "x99999999999999999999999", "+0000000000000000000000001",
    ]
    .iter()
    .map(|s| s.to_string())
    .chain([max, above, next])
    .collect();
    for input in inputs {
        let ours = parse_usize(&input);
        let theirs = input.parse::<usize>();
        match (ours, theirs) {
            (Ok(a), Ok(b)) => assert_eq!(a, b, "{input:?}"),
            (Err(failure), Err(error)) => {
                assert_eq!(failure.to_str(), error.to_string(), "{input:?}")
            }
            (a, b) => panic!("{input:?}: {a:?} against {b:?}"),
        }
    }
}

#[test]
fn parse_failures() {
    assert_eq!(parse_usize(""), Err(ParseFailure::Empty));
    assert_eq!(parse_usize("+"), Err(ParseFailure::InvalidDigit));
    assert_eq!(parse_usize("12x"), Err(ParseFailure::InvalidDigit));
    assert_eq!(
        parse_usize("340282366920938463463374607431768211456"),
        Err(ParseFailure::Overflow)
    );
    assert_eq!(parse_usize("+12"), Ok(12));
    assert_eq!(parse_usize("000"), Ok(0));
}

#[test]
fn decimal_writes_numbers() {
    assert_eq!(decimal(0), "0");
    assert_eq!(decimal(9), "9");
    assert_eq!(decimal(10), "10");
    assert_eq!(decimal(1234567890), "1234567890");
    assert_eq!(decimal(usize::MAX), usize::MAX.to_string());
    for n in [1usize, 99, 100, 101, 65535, 1_000_000] {
        assert_eq!(decimal(n), n.to_string());
        assert_eq!(parse_usize(&decimal(n)), Ok(n));
    }
}

#[test]
fn join_puts_one_space_between_words() {
    let words: Vec<String> = ["7", "buy", "milk", "", "now"].iter().map(|s| s.to_string()).collect();
    assert_eq!(join(&words, 0), "7 buy milk  now");
    assert_eq!(join(&words, 1), "buy milk  now");
    assert_eq!(join(&words, 4), "now");
    assert_eq!(join(&words, 5), "");
    assert_eq!(join(&[], 0), "");
}
