//! The record parser: splits one raw statement line into a typed record.

use vstd::prelude::*;
use vstd::string::StrSliceExecFns;
use crate::amount::Amount;
use crate::amount::amount_frac_digits;
use crate::amount::amount_int_digits;
use crate::amount::amount_negative;
use crate::amount::norm_int_digits;
use crate::amount::parse_amount;
use crate::amount::strip_trailing_zeros;
use crate::amount::valid_amount;
use crate::text::find_from;
use crate::text::first_index_of;
use crate::text::lemma_first_index_of;
use crate::text::str_equal;

verus! {

/// One parsed statement line.
#[derive(Debug)]
pub struct Record {
    /// The month and day, as the text after the four-digit year and its
    /// separator.
    pub date: String,
    /// The exact decimal amount.
    pub amount: Amount,
    pub subject: String,
    pub location: String,
    pub point_of_sale: String,
    /// Whether the type field reads exactly `DEBIT`.
    pub debit: bool,
}

/// Why a statement line was rejected.
#[derive(Debug, PartialEq, Eq, Structural, Clone, Copy)]
pub enum ParseError {
    /// The line has fewer than six comma-separated fields.
    TooFewFields,
    /// The amount field is not a decimal number.
    BadAmount,
}

/// The fields of `s`, split naively on every literal comma. A line
/// without commas is one field; quoting is not interpreted.
pub open spec fn spec_split(s: Seq<char>) -> Seq<Seq<char>>
    decreases s.len(),
{
    let d = first_index_of(s, ',');
    if 0 <= d < s.len() {
        seq![s.subrange(0, d)] + spec_split(s.subrange(d + 1, s.len() as int))
    } else {
        seq![s]
    }
}

/// The date kept from the date field: everything after the first five
/// characters (the year and its separator), empty when the field is
/// shorter than that.
pub open spec fn spec_date(s: Seq<char>) -> Seq<char> {
    if s.len() >= 5 {
        s.subrange(5, s.len() as int)
    } else {
        Seq::empty()
    }
}

/// Whether `c` is stripped from field boundaries.
pub open spec fn is_quote_or_backslash(c: char) -> bool {
    c == '"' || c == '\\'
}

/// `s` with leading quote and backslash characters removed.
pub open spec fn trim_front(s: Seq<char>) -> Seq<char>
    decreases s.len(),
{
    if s.len() > 0 && is_quote_or_backslash(s[0]) {
        trim_front(s.drop_first())
    } else {
        s
    }
}

/// `s` with trailing quote and backslash characters removed.
pub open spec fn trim_back(s: Seq<char>) -> Seq<char>
    decreases s.len(),
{
    if s.len() > 0 && is_quote_or_backslash(s[s.len() - 1]) {
        trim_back(s.drop_last())
    } else {
        s
    }
}

/// `s` with quotes and backslashes stripped from both ends; interior
/// occurrences stay.
pub open spec fn spec_rm_quotes(s: Seq<char>) -> Seq<char> {
    trim_back(trim_front(s))
}

/// Splits a line on every literal comma.
pub fn split_commas(line: &str) -> (fields: Vec<String>)
    ensures
        fields@.len() == spec_split(line@).len(),
        forall|i: int| 0 <= i < fields@.len() ==> #[trigger] fields@[i]@ == spec_split(line@)[i],
{
    let n = line.unicode_len();
    let mut fields: Vec<String> = Vec::new();
    let mut start: usize = 0;
    let ghost mut views = Seq::<Seq<char>>::empty();
    proof {
        assert(line@.subrange(0, n as int) =~= line@);
        assert(views + spec_split(line@) =~= spec_split(line@));
    }
    loop
        invariant
            start <= n,
            n == line@.len(),
            fields@.len() == views.len(),
            forall|i: int| 0 <= i < views.len() ==> #[trigger] fields@[i]@ == views[i],
            spec_split(line@) == views + spec_split(line@.subrange(start as int, n as int)),
        ensures
            fields@.len() == spec_split(line@).len(),
            forall|i: int| 0 <= i < fields@.len() ==> #[trigger] fields@[i]@ == spec_split(line@)[i],
        decreases n - start,
    {
        let ghost rem = line@.subrange(start as int, n as int);
        let d = find_from(line, start, ',');
        proof {
            lemma_first_index_of(rem, ',');
            assert(forall|j: int| 0 <= j < rem.len() ==> rem[j] == line@[start + j]);
            let fi = first_index_of(rem, ',');
            let dd = d - start;
            if fi < dd {
                assert(rem[fi] == line@[start + fi]);
                assert(false);
            }
            if fi > dd {
                assert(dd < rem.len());
                assert(rem[dd] == line@[d as int]);
                assert(false);
            }
        }
        let field = line.substring_char(start, d).to_owned();
        fields.push(field);
        proof {
            assert(rem.subrange(0, d - start) =~= line@.subrange(start as int, d as int));
        }
        if d == n {
            proof {
                assert(spec_split(rem) =~= seq![rem]);
                assert(rem =~= line@.subrange(start as int, d as int));
                assert(spec_split(line@) =~= views.push(rem));
            }
            return fields;
        }
        proof {
            assert(rem.subrange(d - start + 1, rem.len() as int) =~= line@.subrange(
                d + 1,
                n as int,
            ));
            assert(spec_split(rem) =~= seq![line@.subrange(start as int, d as int)] + spec_split(
                line@.subrange(d + 1, n as int),
            ));
            assert((views + spec_split(rem)) =~= (views.push(
                line@.subrange(start as int, d as int),
            ) + spec_split(line@.subrange(d + 1, n as int))));
        }
        proof {
            views = views.push(line@.subrange(start as int, d as int));
        }
        start = d + 1;
    }
}

/// Keeps the text after the year: the first five characters of the date
/// field are discarded, with no calendar validation.
pub fn parse_date(value: &str) -> (date: String)
    ensures
        date@ == spec_date(value@),
{
    let n = value.unicode_len();
    if n >= 5 {
        value.substring_char(5, n).to_owned()
    } else {
        String::new()
    }
}

/// Strips double quotes and backslashes from both ends of a field,
/// keeping interior occurrences.
pub fn rm_quotes(value: &str) -> (r: String)
    ensures
        r@ == spec_rm_quotes(value@),
{
    let n = value.unicode_len();
    let mut start: usize = 0;
    proof {
        assert(value@.subrange(0, n as int) =~= value@);
    }
    loop
        invariant
            start <= n,
            n == value@.len(),
            trim_front(value@) == trim_front(value@.subrange(start as int, n as int)),
        ensures
            start <= n,
            trim_front(value@) == value@.subrange(start as int, n as int),
        decreases n - start,
    {
        if start >= n {
            break;
        }
        let c = value.get_char(start);
        if !(c == '"' || c == '\\') {
            break;
        }
        proof {
            assert(value@.subrange(start as int, n as int).drop_first() =~= value@.subrange(
                start + 1,
                n as int,
            ));
        }
        start = start + 1;
    }
    let mut end: usize = n;
    loop
        invariant
            start <= end <= n,
            n == value@.len(),
            trim_back(value@.subrange(start as int, n as int)) == trim_back(
                value@.subrange(start as int, end as int),
            ),
        ensures
            start <= end <= n,
            trim_back(value@.subrange(start as int, n as int)) == value@.subrange(
                start as int,
                end as int,
            ),
        decreases end,
    {
        if end <= start {
            break;
        }
        let c = value.get_char(end - 1);
        if !(c == '"' || c == '\\') {
            break;
        }
        proof {
            assert(value@.subrange(start as int, end as int).drop_last() =~= value@.subrange(
                start as int,
                end - 1,
            ));
        }
        end = end - 1;
    }
    value.substring_char(start, end).to_owned()
}

/// Parses one statement line into a record.
///
/// The line must hold at least six comma-separated fields, positionally
/// date, amount, subject, location, point of sale, and type; the amount
/// must be a decimal number. Extra fields are ignored.
pub fn parse(line: &str) -> (r: Result<Record, ParseError>)
    ensures
        (r matches Ok(_)) <==> (spec_split(line@).len() >= 6 && valid_amount(
            spec_split(line@)[1],
        )),
        r == Err::<Record, ParseError>(ParseError::TooFewFields) <==> spec_split(line@).len() < 6,
        r == Err::<Record, ParseError>(ParseError::BadAmount) <==> (spec_split(line@).len() >= 6
            && !valid_amount(spec_split(line@)[1])),
        r matches Ok(rec) ==> {
            let f = spec_split(line@);
            &&& rec.date@ == spec_date(f[0])
            &&& rec.amount.wf()
            &&& rec.amount.negative == amount_negative(f[1])
            &&& rec.amount.int_part@ == norm_int_digits(amount_int_digits(f[1]))
            &&& rec.amount.frac_part@ == strip_trailing_zeros(amount_frac_digits(f[1]))
            &&& rec.subject@ == spec_rm_quotes(f[2])
            &&& rec.location@ == spec_rm_quotes(f[3])
            &&& rec.point_of_sale@ == spec_rm_quotes(f[4])
            &&& rec.debit == (spec_rm_quotes(f[5]) == "DEBIT"@)
        },
{
    let fields = split_commas(line);

    if fields.len() < 6 {
        return Err(ParseError::TooFewFields);
    }

    let amount = match parse_amount(fields[1].as_str()) {
        Some(a) => a,
        None => {
            return Err(ParseError::BadAmount);
        },
    };

    let type_field = rm_quotes(fields[5].as_str());
    let debit = str_equal(type_field.as_str(), "DEBIT");

    Ok(
        Record {
            date: parse_date(fields[0].as_str()),
            amount,
            subject: rm_quotes(fields[2].as_str()),
            location: rm_quotes(fields[3].as_str()),
            point_of_sale: rm_quotes(fields[4].as_str()),
            debit,
        },
    )
}

} // verus!
