use statement_parser::amount::{amount_to_string, decimal_count, parse_amount, Amount};

#[test]
fn whole_number_gets_two_decimals() {
    let a = parse_amount("10").unwrap();
    assert_eq!("$10.00", amount_to_string(&a));
}

#[test]
fn one_decimal_digit_gets_padded() {
    let a = parse_amount("10.5").unwrap();
    assert_eq!("$10.50", amount_to_string(&a));
}

#[test]
fn extra_precision_is_kept() {
    let a = parse_amount("7.725").unwrap();
    assert_eq!("$7.725", amount_to_string(&a));
    let a = parse_amount("0.12345").unwrap();
    assert_eq!("$0.12345", amount_to_string(&a));
}

#[test]
fn negative_amounts_keep_their_sign() {
    let a = parse_amount("-3.1").unwrap();
    assert!(a.negative);
    assert_eq!("$-3.10", amount_to_string(&a));
}

#[test]
fn amounts_are_canonicalized() {
    assert_eq!(parse_amount("10.5"), parse_amount("010.50"));
    assert_eq!(
        Amount { negative: false, int_part: "7".to_string(), frac_part: "72".to_string() },
        parse_amount("7.72").unwrap()
    );
    assert_eq!("$0.50", amount_to_string(&parse_amount(".5").unwrap()));
    assert_eq!("$5.00", amount_to_string(&parse_amount("5.").unwrap()));
    assert_eq!("$2.00", amount_to_string(&parse_amount("+2").unwrap()));
    assert_eq!("$0.00", amount_to_string(&parse_amount("0.000").unwrap()));
}

#[test]
fn non_numbers_are_rejected() {
    assert_eq!(None, parse_amount(""));
    assert_eq!(None, parse_amount("-"));
    assert_eq!(None, parse_amount("."));
    assert_eq!(None, parse_amount("1e5"));
    assert_eq!(None, parse_amount("12,5"));
    assert_eq!(None, parse_amount(" 5"));
}

#[test]
fn counts_digits_after_the_point() {
    assert_eq!(2, decimal_count("$10.50"));
    assert_eq!(0, decimal_count("10."));
    assert_eq!(3, decimal_count("7.725"));
}
