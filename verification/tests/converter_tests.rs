use statement_parser::converter::{convert_line, ConvertReport};
use statement_parser::parser::ParseError;

#[test]
fn converts_line_end_to_end() {
    let line = "2019/07/16,7.72,\"5059 Debit Card Purchase Dollarshaveclubus\",,\"7790345006\",\"DEBIT\"";

    let lines = convert_line(line, 70).unwrap();

    assert_eq!(2, lines.len());
    assert_eq!("07/16 * 5059 Debit Card Purchase Dollarshaveclubus\n", lines[0]);
    let padding = " ".repeat(70 - "Expenses:Unknown".len() - "$7.72".len());
    assert_eq!(format!("  Expenses:Unknown{}$7.72\n", padding), lines[1]);
    // Indent, padded account and amount, newline: the amount ends at
    // column 70, so the line is 73 characters long.
    assert_eq!(70 + 3, lines[1].len());
}

#[test]
fn whole_amount_renders_with_two_zeros() {
    let lines = convert_line("2020/01/01,10,\"Coffee\",,\"123\",\"DEBIT\"", 70).unwrap();
    assert!(lines[1].contains("$10.00"));
    assert!(lines[1].ends_with("$10.00\n"));
}

#[test]
fn half_amount_renders_with_trailing_zero() {
    let lines = convert_line("2020/01/01,10.5,\"Coffee\",,\"123\",\"DEBIT\"", 70).unwrap();
    assert!(lines[1].ends_with("$10.50\n"));
}

#[test]
fn convert_line_propagates_parser_errors() {
    assert_eq!(Err(ParseError::TooFewFields), convert_line("a,b,c", 70));
    assert_eq!(Err(ParseError::BadAmount), convert_line("2020/01/01,x,\"s\",,\"1\",\"DEBIT\"", 70));
}

#[test]
fn report_counts_transactions() {
    let report = ConvertReport { total: 37 };
    assert_eq!("Total transactions recorded: 37", report.to_string());
    let report = ConvertReport { total: 0 };
    assert_eq!("Total transactions recorded: 0", report.to_string());
    let report = ConvertReport { total: 4294967295 };
    assert_eq!("Total transactions recorded: 4294967295", report.to_string());
}
