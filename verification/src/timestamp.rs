//! Calendar timestamps held as plain fields, rendered as
//! `YYYY-MM-DD HH:MM:SS`.

use vstd::prelude::*;
use crate::decimal::{dec_digits, is_digit, lemma_dec_digits_are_digits, lemma_dec_digits_len, u32_to_decimal};

verus! {

/// A creation instant, split into calendar fields.
///
/// The storage layer assigns these at insert time; the library only renders
/// them.
#[derive(Clone, Copy, PartialEq, Eq, Structural)]
pub struct Timestamp {
    pub year: u32,
    pub month: u32,
    pub day: u32,
    pub hour: u32,
    pub minute: u32,
    pub second: u32,
}

impl Timestamp {
    /// The fields describe a calendar instant a database can produce.
    pub open spec fn wf(self) -> bool {
        &&& self.year <= 9999
        &&& 1 <= self.month <= 12
        &&& 1 <= self.day <= 31
        &&& self.hour < 24
        &&& self.minute < 60
        &&& self.second < 60
    }
}

/// `n` rendered in decimal, zero-padded on the left to two digits.
pub open spec fn pad2(n: nat) -> Seq<char> {
    if n < 10 {
        seq!['0'] + dec_digits(n)
    } else {
        dec_digits(n)
    }
}

/// `n` rendered in decimal, zero-padded on the left to four digits.
pub open spec fn pad4(n: nat) -> Seq<char> {
    if n < 10 {
        seq!['0', '0', '0'] + dec_digits(n)
    } else if n < 100 {
        seq!['0', '0'] + dec_digits(n)
    } else if n < 1000 {
        seq!['0'] + dec_digits(n)
    } else {
        dec_digits(n)
    }
}

/// The rendering of a timestamp: `YYYY-MM-DD HH:MM:SS`.
pub open spec fn timestamp_text(ts: Timestamp) -> Seq<char> {
    pad4(ts.year as nat) + seq!['-'] + pad2(ts.month as nat) + seq!['-'] + pad2(ts.day as nat)
        + seq![' '] + pad2(ts.hour as nat) + seq![':'] + pad2(ts.minute as nat) + seq![':']
        + pad2(ts.second as nat)
}

fn pad2_string(n: u32) -> (r: String)
    requires
        n < 100,
    ensures
        r@ == pad2(n as nat),
{
    if n < 10 {
        let mut r = String::from_str("0");
        proof {
            reveal_strlit("0");
            assert(r@ =~= seq!['0']);
        }
        let digits = u32_to_decimal(n);
        r.append(digits.as_str());
        r
    } else {
        u32_to_decimal(n)
    }
}

fn pad4_string(n: u32) -> (r: String)
    requires
        n <= 9999,
    ensures
        r@ == pad4(n as nat),
{
    if n >= 1000 {
        u32_to_decimal(n)
    } else {
        let prefix = if n < 10 {
            "000"
        } else if n < 100 {
            "00"
        } else {
            "0"
        };
        proof {
            reveal_strlit("000");
            reveal_strlit("00");
            reveal_strlit("0");
            assert("000"@ =~= seq!['0', '0', '0']);
            assert("00"@ =~= seq!['0', '0']);
            assert("0"@ =~= seq!['0']);
        }
        let mut r = String::from_str(prefix);
        let digits = u32_to_decimal(n);
        r.append(digits.as_str());
        r
    }
}

impl Timestamp {
    /// Renders the instant as `YYYY-MM-DD HH:MM:SS`.
    pub fn render(&self) -> (r: String)
        requires
            self.wf(),
        ensures
            r@ == timestamp_text(*self),
    {
        let mut r = pad4_string(self.year);
        proof {
            reveal_strlit("-");
            reveal_strlit(" ");
            reveal_strlit(":");
            assert("-"@ =~= seq!['-']);
            assert(" "@ =~= seq![' ']);
            assert(":"@ =~= seq![':']);
        }
        r.append("-");
        let month = pad2_string(self.month);
        r.append(month.as_str());
        r.append("-");
        let day = pad2_string(self.day);
        r.append(day.as_str());
        r.append(" ");
        let hour = pad2_string(self.hour);
        r.append(hour.as_str());
        r.append(":");
        let minute = pad2_string(self.minute);
        r.append(minute.as_str());
        r.append(":");
        let second = pad2_string(self.second);
        r.append(second.as_str());
        r
    }
}

/// `pad2` yields exactly two digit characters.
pub proof fn lemma_pad2_shape(n: nat)
    requires
        n < 100,
    ensures
        pad2(n).len() == 2,
        forall|i: int| 0 <= i < 2 ==> is_digit(#[trigger] pad2(n)[i]),
{
    lemma_dec_digits_len(n);
    lemma_dec_digits_are_digits(n);
    assert(is_digit('0'));
}

/// `pad4` yields exactly four digit characters.
pub proof fn lemma_pad4_shape(n: nat)
    requires
        n <= 9999,
    ensures
        pad4(n).len() == 4,
        forall|i: int| 0 <= i < 4 ==> is_digit(#[trigger] pad4(n)[i]),
{
    lemma_dec_digits_len(n);
    lemma_dec_digits_are_digits(n);
    assert(is_digit('0'));
}

/// The rendering of a well-formed timestamp always has the shape
/// `YYYY-MM-DD HH:MM:SS`: nineteen characters, with `-`, `-`, a space, `:`
/// and `:` at positions 4, 7, 10, 13 and 16, and decimal digits everywhere
/// else.
pub proof fn lemma_timestamp_format(ts: Timestamp)
    requires
        ts.wf(),
    ensures
        timestamp_text(ts).len() == 19,
        timestamp_text(ts)[4] == '-',
        timestamp_text(ts)[7] == '-',
        timestamp_text(ts)[10] == ' ',
        timestamp_text(ts)[13] == ':',
        timestamp_text(ts)[16] == ':',
        forall|i: int|
            0 <= i < 19 && i != 4 && i != 7 && i != 10 && i != 13 && i != 16 ==> is_digit(
                #[trigger] timestamp_text(ts)[i],
            ),
{
    lemma_pad4_shape(ts.year as nat);
    lemma_pad2_shape(ts.month as nat);
    lemma_pad2_shape(ts.day as nat);
    lemma_pad2_shape(ts.hour as nat);
    lemma_pad2_shape(ts.minute as nat);
    lemma_pad2_shape(ts.second as nat);
}

} // verus!
