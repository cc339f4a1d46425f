//! The transaction mapper and the journal renderer.
//!
//! A record maps into a transaction with the cleared status marker and a
//! single posting against a fixed placeholder account. A transaction
//! renders as two journal lines: the header with date, status, and
//! subject, and one posting line per posting with the amount right-aligned
//! at the requested column.

use vstd::prelude::*;
use vstd::string::StrSliceExecFns;
use vstd::string::StringExecFns;
use crate::amount::amount_to_string;
use crate::amount::spec_amount_string;
use crate::parser::Record;
use crate::text::first_index_of;
use crate::text::last_index_of;
use crate::text::lemma_first_index_of;
use crate::text::lemma_last_index_of;
use crate::text::push_char;
use crate::text::spaces;

verus! {

/// A ledger transaction, made from exactly one statement record.
#[derive(Debug)]
pub struct Transaction {
    /// The month and day kept from the record.
    pub date: String,
    /// The status marker; the mapper always sets the cleared marker `'*'`.
    pub status: char,
    pub subject: String,
    /// At least one posting; the mapper creates exactly one.
    pub postings: Vec<Posting>,
}

/// One account/amount pair of a transaction.
#[derive(Debug)]
pub struct Posting {
    pub account: String,
    /// The currency-formatted amount text, such as `$10.50`.
    pub amount: String,
}

/// The header line: date, status marker, and subject, space-separated and
/// newline-terminated.
pub open spec fn spec_first_line(date: Seq<char>, status: char, subject: Seq<char>) -> Seq<char> {
    date + seq![' '] + seq![status] + seq![' '] + subject + seq!['\n']
}

/// How many spaces stand between account and amount so that the amount
/// ends at column `width`; zero (never a wrap-around) when the two do not
/// fit.
pub open spec fn pad_width(account: Seq<char>, amount: Seq<char>, width: int) -> int {
    if width >= account.len() + amount.len() {
        width - account.len() - amount.len()
    } else {
        0
    }
}

/// One rendered posting: two leading spaces, the account, the padding,
/// the amount, and a newline.
pub open spec fn spec_posting_line(account: Seq<char>, amount: Seq<char>, width: int) -> Seq<
    char,
> {
    seq![' ', ' '] + account + spaces(pad_width(account, amount, width)) + amount + seq!['\n']
}

/// The second output line: the rendered postings, concatenated in order.
pub open spec fn spec_second_line(postings: Seq<Posting>, width: int) -> Seq<char>
    decreases postings.len(),
{
    if postings.len() == 0 {
        Seq::empty()
    } else {
        spec_second_line(postings.drop_last(), width) + spec_posting_line(
            postings.last().account@,
            postings.last().amount@,
            width,
        )
    }
}

/// Maps a record into a transaction: date and subject carry over, the
/// status is the cleared marker, and a single posting charges the fixed
/// placeholder account with the record's amount as currency text.
pub fn record_to_trans(record: &Record) -> (t: Transaction)
    ensures
        t.date@ == record.date@,
        t.status == '*',
        t.subject@ == record.subject@,
        t.postings@.len() == 1,
        t.postings@[0].account@ == "Expenses:Unknown"@,
        t.postings@[0].amount@ == spec_amount_string(
            record.amount.negative,
            record.amount.int_part@,
            record.amount.frac_part@,
        ),
{
    Transaction {
        date: record.date.clone(),
        status: '*',
        subject: record.subject.clone(),
        postings: record_to_postings(record),
    }
}

/// Builds the single posting of a transaction.
fn record_to_postings(record: &Record) -> (postings: Vec<Posting>)
    ensures
        postings@.len() == 1,
        postings@[0].account@ == "Expenses:Unknown"@,
        postings@[0].amount@ == spec_amount_string(
            record.amount.negative,
            record.amount.int_part@,
            record.amount.frac_part@,
        ),
{
    let mut postings: Vec<Posting> = Vec::new();
    postings.push(
        Posting {
            account: "Expenses:Unknown".to_owned(),
            amount: amount_to_string(&record.amount),
        },
    );
    postings
}

impl Transaction {
    /// Renders the transaction as its two journal lines: the header, and
    /// the postings concatenated into one line, each with its amount
    /// right-aligned at column `width`.
    pub fn to_strings(&self, width: u32) -> (lines: Vec<String>)
        ensures
            lines@.len() == 2,
            lines@[0]@ == spec_first_line(self.date@, self.status, self.subject@),
            lines@[1]@ == spec_second_line(self.postings@, width as int),
    {
        let mut first_line = String::new();
        first_line.append(self.date.as_str());
        first_line.append(" ");
        push_char(&mut first_line, self.status);
        first_line.append(" ");
        first_line.append(self.subject.as_str());
        first_line.append("\n");
        proof {
            reveal_strlit(" ");
            reveal_strlit("\n");
            assert(first_line@ =~= spec_first_line(self.date@, self.status, self.subject@));
        }

        let mut second_line = String::new();
        let mut i: usize = 0;
        proof {
            assert(self.postings@.subrange(0, 0) =~= Seq::<Posting>::empty());
        }
        while i < self.postings.len()
            invariant
                i <= self.postings@.len(),
                second_line@ == spec_second_line(
                    self.postings@.subrange(0, i as int),
                    width as int,
                ),
            decreases self.postings@.len() - i,
        {
            let text = self.postings[i].to_string(width);
            second_line.append(text.as_str());
            i = i + 1;
            proof {
                assert(self.postings@.subrange(0, i as int).drop_last() =~= self.postings@
                    .subrange(0, i - 1));
            }
        }
        proof {
            assert(self.postings@.subrange(0, self.postings@.len() as int) =~= self.postings@);
        }

        let mut lines: Vec<String> = Vec::new();
        lines.push(first_line);
        lines.push(second_line);
        lines
    }
}

impl Posting {
    /// Renders the posting as one journal line. When account and amount
    /// fit within `width` columns, the padding makes the amount end at
    /// exactly that column, so the line is `width + 3` characters with
    /// its two-space indent and newline; a width too small for the two
    /// fields clamps the padding to zero instead of wrapping around.
    pub fn to_string(&self, width: u32) -> (r: String)
        ensures
            r@ == spec_posting_line(self.account@, self.amount@, width as int),
            width as int >= self.account@.len() + self.amount@.len() ==> r@.len() == width + 3,
    {
        let mut result = String::new();
        result.append("  ");
        result.append(self.account.as_str());
        result.append(self.width_to_string(width).as_str());
        result.append(self.amount.as_str());
        result.append("\n");
        proof {
            reveal_strlit("  ");
            reveal_strlit("\n");
            assert(result@ =~= spec_posting_line(self.account@, self.amount@, width as int));
        }
        result
    }

    /// The padding between account and amount: spaces up to column
    /// `width`, none when the two fields do not fit.
    fn width_to_string(&self, width: u32) -> (r: String)
        ensures
            r@ == spaces(pad_width(self.account@, self.amount@, width as int)),
    {
        let a = self.account.as_str().unicode_len();
        let m = self.amount.as_str().unicode_len();
        let w = width as usize;
        let pad: usize = if w <= a {
            0
        } else if w - a <= m {
            0
        } else {
            w - a - m
        };
        let mut r = String::new();
        let mut i: usize = 0;
        while i < pad
            invariant
                i <= pad,
                r@ == spaces(i as int),
            decreases pad - i,
        {
            r.append(" ");
            i = i + 1;
            proof {
                reveal_strlit(" ");
                assert(r@ =~= spaces(i as int));
            }
        }
        proof {
            assert(r@ =~= spaces(pad_width(self.account@, self.amount@, width as int)));
        }
        r
    }
}

/// The date read back from a rendered header line: the text before the
/// first space.
pub open spec fn reparse_date(l: Seq<char>) -> Seq<char> {
    l.subrange(0, first_index_of(l, ' '))
}

/// The status marker read back from a rendered header line: the character
/// after the first space.
pub open spec fn reparse_status(l: Seq<char>) -> char {
    l[first_index_of(l, ' ') + 1]
}

/// The subject read back from a rendered header line: the text between
/// the separator after the status marker and the final newline.
pub open spec fn reparse_subject(l: Seq<char>) -> Seq<char> {
    l.subrange(first_index_of(l, ' ') + 3, l.len() - 1)
}

/// The account read back from a rendered posting line: the text between
/// the two-space indent and the next space.
pub open spec fn reparse_account(l: Seq<char>) -> Seq<char> {
    l.subrange(2, 2 + first_index_of(l.subrange(2, l.len() as int), ' '))
}

/// The amount read back from a rendered posting line: the text between
/// the last space and the final newline.
pub open spec fn reparse_amount(l: Seq<char>) -> Seq<char> {
    l.subrange(last_index_of(l, ' ') + 1, l.len() - 1)
}

/// Rendering is structurally lossless, so re-parsing and re-rendering its
/// own output changes nothing: reading the rendered lines back at their
/// separators recovers the date, status, subject, account, and amount
/// exactly, and rendering the fields so recovered yields the same two
/// lines again. This holds whenever the fields do not themselves contain
/// the separators (no space in the date, the account, or the amount) and
/// the column width leaves at least one space of padding.
pub proof fn lemma_render_reparse(t: Transaction, width: u32)
    requires
        t.postings@.len() == 1,
        forall|j: int| 0 <= j < t.date@.len() ==> t.date@[j] != ' ',
        forall|j: int|
            0 <= j < t.postings@[0].account@.len() ==> t.postings@[0].account@[j] != ' ',
        forall|j: int| 0 <= j < t.postings@[0].amount@.len() ==> t.postings@[0].amount@[j] != ' ',
        width as int >= t.postings@[0].account@.len() + t.postings@[0].amount@.len() + 1,
    ensures
        reparse_date(spec_first_line(t.date@, t.status, t.subject@)) == t.date@,
        reparse_status(spec_first_line(t.date@, t.status, t.subject@)) == t.status,
        reparse_subject(spec_first_line(t.date@, t.status, t.subject@)) == t.subject@,
        reparse_account(spec_second_line(t.postings@, width as int)) == t.postings@[0].account@,
        reparse_amount(spec_second_line(t.postings@, width as int)) == t.postings@[0].amount@,
        spec_first_line(
            reparse_date(spec_first_line(t.date@, t.status, t.subject@)),
            reparse_status(spec_first_line(t.date@, t.status, t.subject@)),
            reparse_subject(spec_first_line(t.date@, t.status, t.subject@)),
        ) == spec_first_line(t.date@, t.status, t.subject@),
        spec_second_line(t.postings@, width as int) == spec_posting_line(
            reparse_account(spec_second_line(t.postings@, width as int)),
            reparse_amount(spec_second_line(t.postings@, width as int)),
            width as int,
        ),
{
    let date = t.date@;
    let subject = t.subject@;
    let account = t.postings@[0].account@;
    let amount = t.postings@[0].amount@;
    let l1 = spec_first_line(date, t.status, subject);

    // The first space of the header line is the one after the date.
    lemma_first_index_of(l1, ' ');
    let fi = first_index_of(l1, ' ');
    assert(l1[date.len() as int] == ' ');
    if fi < date.len() {
        assert(l1[fi] == date[fi]);
        assert(false);
    }
    assert(fi == date.len());
    assert(reparse_date(l1) =~= date);
    assert(reparse_status(l1) == t.status);
    assert(reparse_subject(l1) =~= subject);

    // The second line is the single posting's line.
    let l2 = spec_second_line(t.postings@, width as int);
    assert(t.postings@.drop_last().len() == 0);
    assert(spec_second_line(t.postings@.drop_last(), width as int) == Seq::<char>::empty());
    assert(l2 =~= spec_posting_line(account, amount, width as int));
    let pad = pad_width(account, amount, width as int);
    assert(pad >= 1);

    // The first space after the indent ends the account.
    let tail = l2.subrange(2, l2.len() as int);
    lemma_first_index_of(tail, ' ');
    let ft = first_index_of(tail, ' ');
    assert(tail[account.len() as int] == ' ');
    if ft < account.len() {
        assert(tail[ft] == account[ft]);
        assert(false);
    }
    assert(ft == account.len());
    assert(reparse_account(l2) =~= account);

    // The last space of the line ends the padding.
    lemma_last_index_of(l2, ' ');
    let li = last_index_of(l2, ' ');
    let last_pad = 2 + account.len() + pad - 1;
    assert(l2[last_pad as int] == ' ');
    if li > last_pad {
        if li < l2.len() - 1 {
            assert(l2[li] == amount[li - (last_pad + 1)]);
        }
        assert(false);
    }
    assert(li == last_pad);
    assert(reparse_amount(l2) =~= amount);

    assert(spec_first_line(reparse_date(l1), reparse_status(l1), reparse_subject(l1)) == l1);
    assert(spec_posting_line(reparse_account(l2), reparse_amount(l2), width as int) == l2);
}

} // verus!
