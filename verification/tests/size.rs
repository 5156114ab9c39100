use file_slicer::decimal::{parse_usize, to_decimal};
use file_slicer::report::ErrorKind;
use file_slicer::size::parse_size;

#[test]
fn parse_size_ok() {
    assert_eq!(parse_size("1022").unwrap(), 1022);
    assert_eq!(parse_size("2222").unwrap(), 2222);
    assert_eq!(parse_size("123123123").unwrap(), 123123123);
}

#[test]
fn parse_size_zero_is_too_small() {
    assert_eq!(parse_size("0"), Err(ErrorKind::SizeTooSmall));
    assert_eq!(parse_size("000"), Err(ErrorKind::SizeTooSmall));
    assert_eq!(parse_size("+0"), Err(ErrorKind::SizeTooSmall));
}

#[test]
fn parse_size_rejects_what_is_no_number() {
    assert_eq!(parse_size("-5"), Err(ErrorKind::InvalidSize));
    assert_eq!(parse_size("abc"), Err(ErrorKind::InvalidSize));
    assert_eq!(parse_size(""), Err(ErrorKind::InvalidSize));
    assert_eq!(parse_size("+"), Err(ErrorKind::InvalidSize));
    assert_eq!(parse_size("++1"), Err(ErrorKind::InvalidSize));
    assert_eq!(parse_size(" 5"), Err(ErrorKind::InvalidSize));
    assert_eq!(parse_size("5 "), Err(ErrorKind::InvalidSize));
    assert_eq!(parse_size("1_000"), Err(ErrorKind::InvalidSize));
    assert_eq!(parse_size("1,000"), Err(ErrorKind::InvalidSize));
    assert_eq!(parse_size("12a"), Err(ErrorKind::InvalidSize));
    assert_eq!(parse_size("0x10"), Err(ErrorKind::InvalidSize));
    assert_eq!(parse_size("1.5"), Err(ErrorKind::InvalidSize));
    assert_eq!(parse_size("\u{ff15}"), Err(ErrorKind::InvalidSize));
    assert_eq!(parse_size("5\u{e9}"), Err(ErrorKind::InvalidSize));
}

#[test]
fn parse_size_smallest_and_signed() {
    assert_eq!(parse_size("1"), Ok(1));
    assert_eq!(parse_size("+1"), Ok(1));
    assert_eq!(parse_size("+42"), Ok(42));
    assert_eq!(parse_size("007"), Ok(7));
}

#[test]
fn parse_size_at_the_machine_limit() {
    let max = usize::MAX;
    assert_eq!(parse_size(&format!("{}", max)), Ok(max));
    assert_eq!(parse_size(&format!("{}", max as u128 + 1)), Err(ErrorKind::InvalidSize));
    assert_eq!(parse_size(&format!("{}0", max)), Err(ErrorKind::InvalidSize));
    assert_eq!(
        parse_size("99999999999999999999999999999999999999999"),
        Err(ErrorKind::InvalidSize)
    );
    assert_eq!(parse_size(&format!("000{}", max)), Ok(max));
}

#[test]
fn parse_usize_agrees_with_the_standard_parser() {
    let alphabet = ['0', '1', '7', '9', '+', '-', ' ', 'a', '_'];
    let mut inputs: Vec<String> = vec![String::new()];
    let mut frontier: Vec<String> = vec![String::new()];
    for _ in 0..4 {
        let mut longer = Vec::new();
        for s in &frontier {
            for c in alphabet {
                let mut t = s.clone();
                t.push(c);
                longer.push(t);
            }
        }
        inputs.extend(longer.iter().cloned());
        frontier = longer;
    }
    assert_eq!(inputs.len(), 1 + 9 + 81 + 729 + 6561);
    for s in &inputs {
        assert_eq!(parse_usize(s), s.parse::<usize>().ok(), "input {:?}", s);
    }
}

#[test]
fn parse_usize_reads_numbers() {
    assert_eq!(parse_usize("0"), Some(0));
    assert_eq!(parse_usize("10"), Some(10));
    assert_eq!(parse_usize("4096"), Some(4096));
    assert_eq!(parse_usize("x"), None);
}

#[test]
fn to_decimal_writes_numbers() {
    assert_eq!(to_decimal(0), "0");
    assert_eq!(to_decimal(7), "7");
    assert_eq!(to_decimal(10), "10");
    assert_eq!(to_decimal(1022), "1022");
    assert_eq!(to_decimal(u64::MAX), "18446744073709551615");
}

#[test]
fn decimal_round_trip() {
    let mut n: u64 = 0;
    while n < 3000 {
        assert_eq!(to_decimal(n), format!("{}", n));
        assert_eq!(parse_usize(&to_decimal(n)), Some(n as usize));
        n += 1;
    }
    for n in [65_535u64, 65_536, 999_999, 1_000_000, 4_294_967_295] {
        assert_eq!(to_decimal(n), format!("{}", n));
        assert_eq!(parse_usize(&to_decimal(n)), Some(n as usize));
    }
}
