//! Exact decimal amounts.
//!
//! A statement amount is a plain decimal number: an optional sign, integer
//! digits, and an optional fraction. [`Amount`] keeps it exactly as digits,
//! in a canonical form (no leading zeros on the integer part, no trailing
//! zeros on the fraction), so that rendering never rounds.

use vstd::prelude::*;
use vstd::string::StrSliceExecFns;
use vstd::string::StringExecFns;
use crate::text::first_index_of;
use crate::text::lemma_first_index_of;
use crate::text::find_from;

verus! {

/// Whether `c` is a decimal digit.
pub open spec fn is_ascii_digit(c: char) -> bool {
    '0' <= c && c <= '9'
}

/// Whether the amount field begins with a minus sign.
pub open spec fn amount_negative(s: Seq<char>) -> bool {
    s.len() > 0 && s[0] == '-'
}

/// The amount field with a leading `-` or `+` removed.
pub open spec fn amount_unsigned(s: Seq<char>) -> Seq<char> {
    if s.len() > 0 && (s[0] == '-' || s[0] == '+') {
        s.drop_first()
    } else {
        s
    }
}

/// The digits before the decimal point (all of the unsigned part when
/// there is no point).
pub open spec fn amount_int_digits(s: Seq<char>) -> Seq<char> {
    let u = amount_unsigned(s);
    u.subrange(0, first_index_of(u, '.'))
}

/// The digits after the decimal point, empty when there is no point.
pub open spec fn amount_frac_digits(s: Seq<char>) -> Seq<char> {
    let u = amount_unsigned(s);
    let d = first_index_of(u, '.');
    if d < u.len() {
        u.subrange(d + 1, u.len() as int)
    } else {
        Seq::empty()
    }
}

/// Whether the field is a decimal number: an optional sign, then digits
/// with at most one decimal point and at least one digit somewhere.
pub open spec fn valid_amount(s: Seq<char>) -> bool {
    let i = amount_int_digits(s);
    let f = amount_frac_digits(s);
    &&& forall|j: int| 0 <= j < i.len() ==> is_ascii_digit(#[trigger] i[j])
    &&& forall|j: int| 0 <= j < f.len() ==> is_ascii_digit(#[trigger] f[j])
    &&& i.len() + f.len() > 0
}

/// `s` with its leading `'0'` characters removed.
pub open spec fn strip_leading_zeros(s: Seq<char>) -> Seq<char>
    decreases s.len(),
{
    if s.len() > 0 && s[0] == '0' {
        strip_leading_zeros(s.drop_first())
    } else {
        s
    }
}

/// The canonical integer part: leading zeros removed, but never empty.
pub open spec fn norm_int_digits(s: Seq<char>) -> Seq<char> {
    if strip_leading_zeros(s).len() == 0 {
        seq!['0']
    } else {
        strip_leading_zeros(s)
    }
}

/// `s` with its trailing `'0'` characters removed.
pub open spec fn strip_trailing_zeros(s: Seq<char>) -> Seq<char>
    decreases s.len(),
{
    if s.len() > 0 && s[s.len() - 1] == '0' {
        strip_trailing_zeros(s.drop_last())
    } else {
        s
    }
}

/// An exact decimal amount in canonical form.
#[derive(Debug, PartialEq, Eq)]
pub struct Amount {
    /// Whether the amount was written with a minus sign.
    pub negative: bool,
    /// The digits before the decimal point; at least one, no leading zero
    /// unless the part is exactly `0`.
    pub int_part: String,
    /// The digits after the decimal point, without trailing zeros;
    /// empty for a whole number.
    pub frac_part: String,
}

impl Amount {
    /// Canonical form: both parts are digits, the integer part is nonempty
    /// without a superfluous leading zero, the fraction has no trailing zero.
    pub open spec fn wf(&self) -> bool {
        &&& self.int_part@.len() > 0
        &&& forall|j: int|
            0 <= j < self.int_part@.len() ==> is_ascii_digit(#[trigger] self.int_part@[j])
        &&& self.int_part@.len() > 1 ==> self.int_part@[0] != '0'
        &&& forall|j: int|
            0 <= j < self.frac_part@.len() ==> is_ascii_digit(#[trigger] self.frac_part@[j])
        &&& self.frac_part@.len() > 0 ==> self.frac_part@[self.frac_part@.len() - 1] != '0'
    }
}

/// Removing leading zeros keeps exactly the tail that starts at the first
/// non-zero position.
proof fn lemma_strip_leading_zeros_at(s: Seq<char>, k: int)
    requires
        0 <= k <= s.len(),
        forall|j: int| 0 <= j < k ==> s[j] == '0',
        k < s.len() ==> s[k] != '0',
    ensures
        strip_leading_zeros(s) == s.subrange(k, s.len() as int),
    decreases k,
{
    if k == 0 {
        assert(s.subrange(0, s.len() as int) =~= s);
    } else {
        assert(s[0] == '0');
        lemma_strip_leading_zeros_at(s.drop_first(), k - 1);
        assert(s.drop_first().subrange(k - 1, s.drop_first().len() as int) =~= s.subrange(
            k,
            s.len() as int,
        ));
    }
}

/// Removing trailing zeros keeps exactly the head that ends at the last
/// non-zero position.
proof fn lemma_strip_trailing_zeros_at(s: Seq<char>, k: int)
    requires
        0 <= k <= s.len(),
        forall|j: int| k <= j < s.len() ==> s[j] == '0',
        k > 0 ==> s[k - 1] != '0',
    ensures
        strip_trailing_zeros(s) == s.subrange(0, k),
    decreases s.len() - k,
{
    if k == s.len() {
        assert(s.subrange(0, s.len() as int) =~= s);
    } else {
        assert(s[s.len() - 1] == '0');
        lemma_strip_trailing_zeros_at(s.drop_last(), k);
        assert(s.drop_last().subrange(0, k) =~= s.subrange(0, k));
    }
}

/// Whether every character of `s` in `[from, to)` is a decimal digit.
fn digits_in_range(s: &str, from: usize, to: usize) -> (r: bool)
    requires
        from <= to,
        to as int <= s@.len(),
    ensures
        r == forall|j: int| from <= j < to ==> is_ascii_digit(#[trigger] s@[j]),
{
    let mut i: usize = from;
    while i < to
        invariant
            from <= i <= to,
            to as int <= s@.len(),
            forall|j: int| from <= j < i ==> is_ascii_digit(#[trigger] s@[j]),
        decreases to - i,
    {
        let c = s.get_char(i);
        if !(c >= '0' && c <= '9') {
            return false;
        }
        i = i + 1;
    }
    true
}

/// Parses the amount field of a statement line: an optional `-` or `+`
/// sign, digits, and at most one decimal point. Returns `None` exactly
/// when the field is not such a number; otherwise the exact decimal in
/// canonical form.
#[verifier::loop_isolation(false)]
#[verifier::rlimit(100)]
pub fn parse_amount(value: &str) -> (r: Option<Amount>)
    ensures
        (r matches Some(_)) <==> valid_amount(value@),
        r matches Some(a) ==> {
            &&& a.wf()
            &&& a.negative == amount_negative(value@)
            &&& a.int_part@ == norm_int_digits(amount_int_digits(value@))
            &&& a.frac_part@ == strip_trailing_zeros(amount_frac_digits(value@))
        },
{
    let n = value.unicode_len();

    let negative = n > 0 && value.get_char(0) == '-';
    let start: usize = if n > 0 {
        let c0 = value.get_char(0);
        if c0 == '-' || c0 == '+' {
            1
        } else {
            0
        }
    } else {
        0
    };
    let ghost u = amount_unsigned(value@);
    proof {
        assert(u =~= value@.subrange(start as int, n as int));
    }

    // Locate the decimal point inside the unsigned part.
    let dot = find_from(value, start, '.');
    proof {
        lemma_first_index_of(u, '.');
        assert(forall|j: int| 0 <= j < u.len() ==> u[j] == value@[start + j]);
        let fi = first_index_of(u, '.');
        let d = dot - start;
        if fi < d {
            assert(u[fi] == value@[start + fi]);
            assert(false);
        }
        if fi > d {
            assert(d < u.len());
            assert(u[d] == value@[dot as int]);
            assert(false);
        }
        assert(first_index_of(u, '.') == dot - start);
        assert(amount_int_digits(value@) =~= value@.subrange(start as int, dot as int));
        if dot < n {
            assert(amount_frac_digits(value@) =~= value@.subrange(dot + 1, n as int));
        } else {
            assert(amount_frac_digits(value@) =~= Seq::<char>::empty());
        }
    }

    // Every character of both digit runs must be a digit, and there must
    // be at least one digit.
    if !digits_in_range(value, start, dot) {
        proof {
            let j0 = choose|j: int| start <= j < dot && !is_ascii_digit(#[trigger] value@[j]);
            assert(!is_ascii_digit(amount_int_digits(value@)[j0 - start]));
        }
        return None;
    }
    let frac_start: usize = if dot < n {
        dot + 1
    } else {
        n
    };
    if !digits_in_range(value, frac_start, n) {
        proof {
            let j0 = choose|j: int| frac_start <= j < n && !is_ascii_digit(#[trigger] value@[j]);
            assert(!is_ascii_digit(amount_frac_digits(value@)[j0 - frac_start]));
        }
        return None;
    }
    if dot == start && frac_start == n {
        // No digit at all: an empty field, a bare sign, or a bare point.
        return None;
    }
    assert(valid_amount(value@));

    // Canonical integer part: skip the leading zeros.
    let mut z: usize = start;
    while z < dot && value.get_char(z) == '0'
        invariant
            start <= z <= dot,
            dot as int <= value@.len(),
            forall|j: int| start <= j < z ==> value@[j] == '0',
        decreases dot - z,
    {
        z = z + 1;
    }
    proof {
        lemma_strip_leading_zeros_at(
            amount_int_digits(value@),
            z - start,
        );
        assert(amount_int_digits(value@).subrange(z - start, dot - start) =~= value@.subrange(
            z as int,
            dot as int,
        ));
    }
    let int_part: String = if z == dot {
        proof {
            reveal_strlit("0");
        }
        assert(norm_int_digits(amount_int_digits(value@)) =~= "0"@);
        "0".to_owned()
    } else {
        value.substring_char(z, dot).to_owned()
    };

    // Canonical fraction: drop the trailing zeros.
    let mut e: usize = n;
    while e > frac_start && value.get_char(e - 1) == '0'
        invariant
            frac_start <= e <= n,
            n == value@.len(),
            forall|j: int| e <= j < n ==> value@[j] == '0',
        decreases e,
    {
        e = e - 1;
    }
    proof {
        lemma_strip_trailing_zeros_at(
            amount_frac_digits(value@),
            e - frac_start,
        );
        assert(amount_frac_digits(value@).subrange(0, e - frac_start) =~= value@.subrange(
            frac_start as int,
            e as int,
        ));
    }
    let frac_part: String = if e == frac_start {
        assert(strip_trailing_zeros(amount_frac_digits(value@)) =~= Seq::<char>::empty());
        String::new()
    } else {
        value.substring_char(frac_start, e).to_owned()
    };

    Some(Amount { negative, int_part, frac_part })
}

/// How the fraction digits are shown: always at least two, extra digits
/// kept as they are.
pub open spec fn frac_shown(f: Seq<char>) -> Seq<char> {
    if f.len() == 0 {
        seq!['0', '0']
    } else if f.len() == 1 {
        f.push('0')
    } else {
        f
    }
}

/// The rendered currency text of an amount: `$`, the sign, the integer
/// digits, a point, and the fraction shown with at least two digits.
pub open spec fn spec_amount_string(neg: bool, int_digits: Seq<char>, frac_digits: Seq<char>) -> Seq<
    char,
> {
    let sign: Seq<char> = if neg {
        seq!['-']
    } else {
        Seq::empty()
    };
    seq!['$'] + sign + int_digits + seq!['.'] + frac_shown(frac_digits)
}

/// Renders an amount as currency text: a `$` prefix and at least two
/// digits after the decimal point, with any further fraction digits kept
/// unrounded.
pub fn amount_to_string(amount: &Amount) -> (r: String)
    ensures
        r@ == spec_amount_string(amount.negative, amount.int_part@, amount.frac_part@),
        frac_shown(amount.frac_part@).len() >= 2,
        frac_shown(amount.frac_part@).len() >= amount.frac_part@.len(),
        amount.frac_part@.len() >= 2 ==> frac_shown(amount.frac_part@) == amount.frac_part@,
        frac_shown(amount.frac_part@).subrange(0, amount.frac_part@.len() as int) == amount
            .frac_part@,
{
    proof {
        reveal_strlit("$");
        reveal_strlit("-");
        reveal_strlit(".");
        reveal_strlit("0");
        reveal_strlit("00");
    }
    let mut r = String::new();
    r.append("$");
    if amount.negative {
        r.append("-");
    }
    r.append(amount.int_part.as_str());
    r.append(".");
    let fl = amount.frac_part.as_str().unicode_len();
    if fl == 0 {
        r.append("00");
    } else if fl == 1 {
        r.append(amount.frac_part.as_str());
        r.append("0");
    } else {
        r.append(amount.frac_part.as_str());
    }
    proof {
        assert(r@ =~= spec_amount_string(amount.negative, amount.int_part@, amount.frac_part@));
        assert(frac_shown(amount.frac_part@).subrange(0, amount.frac_part@.len() as int)
            =~= amount.frac_part@);
    }
    r
}

/// Number of characters after the first decimal point of `val`.
pub fn decimal_count(val: &str) -> (count: usize)
    requires
        first_index_of(val@, '.') < val@.len(),
    ensures
        count == val@.len() - first_index_of(val@, '.') - 1,
{
    let n = val.unicode_len();
    let dot = find_from(val, 0, '.');
    proof {
        lemma_first_index_of(val@, '.');
        assert(first_index_of(val@, '.') == dot as int);
    }
    n - dot - 1
}

} // verus!
