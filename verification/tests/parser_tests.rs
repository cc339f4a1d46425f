use statement_parser::amount::parse_amount;
use statement_parser::parser::{parse, parse_date, rm_quotes, split_commas, ParseError};

#[test]
fn parser_parses_line() {
    let line = "2019/07/16,7.72,\"5059 Debit Card Purchase Dollarshaveclubus\",,\"7790345006\",\"DEBIT\"";

    let record = parse(&line).unwrap();

    assert_eq!("07/16".to_string(), record.date);
    assert_eq!(parse_amount("7.72").unwrap(), record.amount);
    assert_eq!("5059 Debit Card Purchase Dollarshaveclubus", record.subject);
    assert_eq!("", record.location);
    assert_eq!("7790345006", record.point_of_sale);
    assert_eq!(true, record.debit);
}

#[test]
fn main_parses_line() {
    let line = "2019/07/16,7.72,\"5059 Debit Card Purchase Dollarshaveclubus\",,\"7790345006\",\"DEBIT\"";

    let record = parse(&line).unwrap();

    assert_eq!("07/16".to_string(), record.date);
    assert_eq!(parse_amount("7.72").unwrap(), record.amount);
    assert_eq!("5059 Debit Card Purchase Dollarshaveclubus", record.subject);
    assert_eq!("", record.location);
    assert_eq!("7790345006", record.point_of_sale);
    assert_eq!(true, record.debit);
}

#[test]
fn rejects_short_line() {
    assert_eq!(Err(ParseError::TooFewFields), parse("2019/07/16,7.72,\"x\",,\"1\"").map(|_| ()));
    assert_eq!(Err(ParseError::TooFewFields), parse("").map(|_| ()));
}

#[test]
fn rejects_bad_amount() {
    assert_eq!(
        Err(ParseError::BadAmount),
        parse("2019/07/16,abc,\"x\",,\"1\",\"DEBIT\"").map(|_| ())
    );
    assert_eq!(
        Err(ParseError::BadAmount),
        parse("2019/07/16,.,\"x\",,\"1\",\"DEBIT\"").map(|_| ())
    );
    assert_eq!(
        Err(ParseError::BadAmount),
        parse("2019/07/16,1.2.3,\"x\",,\"1\",\"DEBIT\"").map(|_| ())
    );
}

#[test]
fn non_debit_type_clears_flag() {
    let record = parse("2019/07/16,7.72,\"x\",,\"1\",\"CREDIT\"").unwrap();
    assert_eq!(false, record.debit);
    // The comparison is case-sensitive.
    let record = parse("2019/07/16,7.72,\"x\",,\"1\",\"debit\"").unwrap();
    assert_eq!(false, record.debit);
}

#[test]
fn splits_on_every_comma() {
    let fields = split_commas("a,,b");
    assert_eq!(vec!["a".to_string(), "".to_string(), "b".to_string()], fields);
    let fields = split_commas("");
    assert_eq!(vec!["".to_string()], fields);
    let fields = split_commas("no comma here");
    assert_eq!(vec!["no comma here".to_string()], fields);
}

#[test]
fn date_drops_year_prefix() {
    assert_eq!("07/16", parse_date("2019/07/16"));
    assert_eq!("", parse_date("0716"));
    assert_eq!("", parse_date("07/16"));
}

#[test]
fn quotes_stripped_from_ends_only() {
    assert_eq!("a\"b", rm_quotes("\"a\"b\""));
    assert_eq!("x", rm_quotes("\\\"x\"\\"));
    assert_eq!("", rm_quotes("\"\""));
    assert_eq!("plain", rm_quotes("plain"));
}
