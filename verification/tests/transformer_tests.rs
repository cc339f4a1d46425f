use statement_parser::amount::{amount_to_string, parse_amount};
use statement_parser::parser::Record;
use statement_parser::transformer::{record_to_trans, Posting, Transaction};

#[test]
fn transformer_converts_record() {
    let record = Record {
        date: "2019/07/16".to_string(),
        amount: parse_amount("7.72").unwrap(),
        subject: "5059 Debit Card Purchase Dollarshaveclubus".to_string(),
        location: String::new(),
        point_of_sale: "7790345006".to_string(),
        debit: true,
    };

    let actual = record_to_trans(&record);

    assert_eq!(record.date, actual.date);
    assert_eq!(amount_to_string(&record.amount), actual.postings[0].amount);
    assert_eq!(record.date, actual.date);
    assert_eq!(record.subject, actual.subject);
}

#[test]
fn main_converts_record() {
    let record = Record {
        date: "2019/07/16".to_string(),
        amount: parse_amount("7.72").unwrap(),
        subject: "5059 Debit Card Purchase Dollarshaveclubus".to_string(),
        location: String::new(),
        point_of_sale: "7790345006".to_string(),
        debit: true,
    };

    let actual = record_to_trans(&record);

    assert_eq!(record.date, actual.date);
    assert_eq!("$7.72", actual.postings[0].amount);
    assert_eq!(record.subject, actual.subject);
}

#[test]
fn maps_to_exactly_one_posting() {
    let record = Record {
        date: "07/16".to_string(),
        amount: parse_amount("1").unwrap(),
        subject: "s".to_string(),
        location: String::new(),
        point_of_sale: String::new(),
        debit: false,
    };

    let actual = record_to_trans(&record);

    assert_eq!('*', actual.status);
    assert_eq!(1, actual.postings.len());
    assert_eq!("Expenses:Unknown", actual.postings[0].account);
}

#[test]
fn prints_trans() {
    let trans = Transaction {
        date: "07/16".to_string(),
        status: '*',
        subject: "5059 Debit Card Purchase Dollarshaveclubus".to_string(),
        postings: vec![Posting {
            account: "Expenses:Unknown".to_string(),
            amount: "$7.72".to_string(),
        }],
    };

    let actual = trans.to_strings(70);

    assert!(actual.len() == 2);
    assert_eq!("07/16 * 5059 Debit Card Purchase Dollarshaveclubus\n".to_string(), actual[0]);
    let padding = " ".repeat(70 - "Expenses:Unknown".len() - "$7.72".len());
    assert_eq!(format!("  Expenses:Unknown{}$7.72\n", padding), actual[1]);
}

#[test]
fn posting_line_ends_at_the_requested_column() {
    let posting =
        Posting { account: "Expenses:Unknown".to_string(), amount: "$7.72".to_string() };

    let line = posting.to_string(70);

    // Two spaces of indent, then the amount right-aligned at column 70,
    // then the newline: 73 characters in all.
    assert_eq!(73, line.len());
    assert!(line.ends_with("$7.72\n"));
    assert!(line.starts_with("  Expenses:Unknown "));
}

#[test]
fn too_small_width_clamps_padding() {
    let posting =
        Posting { account: "Expenses:Unknown".to_string(), amount: "$7.72".to_string() };

    let line = posting.to_string(5);

    assert_eq!("  Expenses:Unknown$7.72\n", line);
}
