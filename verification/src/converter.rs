//! The per-line conversion step and the run report.
//!
//! The driver that reads and writes streams lives outside the library; it
//! hands each text line to [`convert_line`] and writes the returned
//! journal lines out.

use vstd::prelude::*;
use vstd::string::StringExecFns;
use crate::amount::amount_frac_digits;
use crate::amount::amount_int_digits;
use crate::amount::amount_negative;
use crate::amount::norm_int_digits;
use crate::amount::spec_amount_string;
use crate::amount::strip_trailing_zeros;
use crate::amount::valid_amount;
use crate::parser::ParseError;
use crate::parser::parse;
use crate::parser::spec_date;
use crate::parser::spec_rm_quotes;
use crate::parser::spec_split;
use crate::transformer::Posting;
use crate::transformer::record_to_trans;
use crate::transformer::spec_first_line;
use crate::transformer::spec_posting_line;
use crate::transformer::spec_second_line;

verus! {

/// The currency text of the amount field `f`, as the pipeline renders it.
pub open spec fn spec_amount_of_field(f: Seq<char>) -> Seq<char> {
    spec_amount_string(
        amount_negative(f),
        norm_int_digits(amount_int_digits(f)),
        strip_trailing_zeros(amount_frac_digits(f)),
    )
}

/// Converts one statement line into its two journal lines: parse, map,
/// render. Fails exactly where the parser fails, with its error.
pub fn convert_line(line: &str, width: u32) -> (r: Result<Vec<String>, ParseError>)
    ensures
        (r matches Ok(_)) <==> (spec_split(line@).len() >= 6 && valid_amount(
            spec_split(line@)[1],
        )),
        r == Err::<Vec<String>, ParseError>(ParseError::TooFewFields) <==> spec_split(
            line@,
        ).len() < 6,
        r == Err::<Vec<String>, ParseError>(ParseError::BadAmount) <==> (spec_split(line@).len()
            >= 6 && !valid_amount(spec_split(line@)[1])),
        r matches Ok(lines) ==> {
            let f = spec_split(line@);
            &&& lines@.len() == 2
            &&& lines@[0]@ == spec_first_line(spec_date(f[0]), '*', spec_rm_quotes(f[2]))
            &&& lines@[1]@ == spec_posting_line(
                "Expenses:Unknown"@,
                spec_amount_of_field(f[1]),
                width as int,
            )
        },
{
    let record = match parse(line) {
        Ok(record) => record,
        Err(e) => {
            return Err(e);
        },
    };
    let trans = record_to_trans(&record);
    let lines = trans.to_strings(width);
    proof {
        assert(trans.postings@.drop_last() =~= Seq::<Posting>::empty());
        assert(spec_second_line(Seq::<Posting>::empty(), width as int) == Seq::<char>::empty());
        assert(trans.postings@.last() == trans.postings@[0]);
        assert(spec_second_line(trans.postings@, width as int) =~= spec_posting_line(
            trans.postings@[0].account@,
            trans.postings@[0].amount@,
            width as int,
        ));
    }
    Ok(lines)
}

/// The decimal digit for a value below ten.
pub open spec fn digit_char(d: int) -> char {
    if d == 0 {
        '0'
    } else if d == 1 {
        '1'
    } else if d == 2 {
        '2'
    } else if d == 3 {
        '3'
    } else if d == 4 {
        '4'
    } else if d == 5 {
        '5'
    } else if d == 6 {
        '6'
    } else if d == 7 {
        '7'
    } else if d == 8 {
        '8'
    } else {
        '9'
    }
}

/// The decimal digits of `n`, most significant first.
pub open spec fn spec_u32_string(n: int) -> Seq<char>
    decreases n,
{
    if n < 10 {
        seq![digit_char(n)]
    } else {
        spec_u32_string(n / 10).push(digit_char(n % 10))
    }
}

/// One decimal digit as text.
fn digit_str(d: u32) -> (r: &'static str)
    requires
        d < 10,
    ensures
        r@ == seq![digit_char(d as int)],
{
    proof {
        reveal_strlit("0");
        reveal_strlit("1");
        reveal_strlit("2");
        reveal_strlit("3");
        reveal_strlit("4");
        reveal_strlit("5");
        reveal_strlit("6");
        reveal_strlit("7");
        reveal_strlit("8");
        reveal_strlit("9");
    }
    let r = match d {
        0 => "0",
        1 => "1",
        2 => "2",
        3 => "3",
        4 => "4",
        5 => "5",
        6 => "6",
        7 => "7",
        8 => "8",
        _ => "9",
    };
    proof {
        assert(r@ =~= seq![digit_char(d as int)]);
    }
    r
}

/// Writes `n` in decimal.
fn u32_to_string(n: u32) -> (r: String)
    ensures
        r@ == spec_u32_string(n as int),
    decreases n,
{
    if n < 10 {
        digit_str(n).to_owned()
    } else {
        let mut r = u32_to_string(n / 10);
        r.append(digit_str(n % 10));
        proof {
            assert(r@ =~= spec_u32_string(n as int));
        }
        r
    }
}

/// Tally of one conversion run: how many transactions were written.
#[derive(Debug)]
pub struct ConvertReport {
    pub total: u32,
}

impl ConvertReport {
    /// The report as one human-readable sentence.
    pub fn to_string(&self) -> (r: String)
        ensures
            r@ == "Total transactions recorded: "@ + spec_u32_string(self.total as int),
    {
        let mut r = "Total transactions recorded: ".to_owned();
        r.append(u32_to_string(self.total).as_str());
        r
    }
}

} // verus!
