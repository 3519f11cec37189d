//! Calendar timestamps and their RFC 3339 text.

use vstd::prelude::*;
use vstd::arithmetic::div_mod::lemma_fundamental_div_mod;
use crate::num::{
    digit_val, is_digit_char, lemma_digit_char_val, lemma_pad2_inj, lemma_pad4_inj,
    lemma_recompose4, pad2, pad4, push_pad2, push_pad4,
};

verus! {

/// A UTC calendar timestamp with second precision: the library's own
/// representation of the store's `created_at` and `updated_at` columns.
#[derive(Clone, Copy, PartialEq, Eq, Structural, Debug)]
pub struct Timestamp {
    pub year: u16,
    pub month: u8,
    pub day: u8,
    pub hour: u8,
    pub minute: u8,
    pub second: u8,
}

/// Gregorian leap years.
pub open spec fn is_leap_year(y: int) -> bool {
    (y % 4 == 0 && y % 100 != 0) || y % 400 == 0
}

/// The number of days in a month of the Gregorian calendar.
pub open spec fn days_in_month(y: int, m: int) -> int {
    if m == 2 {
        if is_leap_year(y) {
            29
        } else {
            28
        }
    } else if m == 4 || m == 6 || m == 9 || m == 11 {
        30
    } else {
        31
    }
}

/// The number of days in a month, as a runtime value.
pub fn days_in_month_val(year: u16, month: u8) -> (d: u8)
    requires
        1 <= month <= 12,
    ensures
        d as int == days_in_month(year as int, month as int),
{
    if month == 2 {
        if (year % 4 == 0 && year % 100 != 0) || year % 400 == 0 {
            29
        } else {
            28
        }
    } else if month == 4 || month == 6 || month == 9 || month == 11 {
        30
    } else {
        31
    }
}

impl Timestamp {
    /// A well-formed timestamp: a real calendar date with a four-digit year
    /// and an in-range time of day.
    pub open spec fn wf(self) -> bool {
        &&& self.year <= 9999
        &&& 1 <= self.month <= 12
        &&& 1 <= self.day <= days_in_month(self.year as int, self.month as int)
        &&& self.hour <= 23
        &&& self.minute <= 59
        &&& self.second <= 59
    }

    /// The RFC 3339 text `YYYY-MM-DDThh:mm:ssZ`.
    pub open spec fn rfc3339(self) -> Seq<char> {
        pad4(self.year as nat) + seq!['-'] + pad2(self.month as nat) + seq!['-'] + pad2(
            self.day as nat,
        ) + seq!['T'] + pad2(self.hour as nat) + seq![':'] + pad2(self.minute as nat) + seq![':']
            + pad2(self.second as nat) + seq!['Z']
    }

    /// Decide well-formedness at runtime, for callers outside the library
    /// that receive a timestamp from elsewhere.
    pub fn is_wf(&self) -> (b: bool)
        ensures
            b == self.wf(),
    {
        if !(self.year <= 9999 && 1 <= self.month && self.month <= 12) {
            return false;
        }
        let dim = days_in_month_val(self.year, self.month);
        1 <= self.day && self.day <= dim && self.hour <= 23 && self.minute <= 59 && self.second
            <= 59
    }

    /// Render the timestamp as RFC 3339 text.
    pub fn format_rfc3339(&self) -> (s: String)
        requires
            self.wf(),
        ensures
            s@ == self.rfc3339(),
    {
        let mut s = String::new();
        push_pad4(&mut s, self.year);
        s.push('-');
        push_pad2(&mut s, self.month);
        s.push('-');
        push_pad2(&mut s, self.day);
        s.push('T');
        push_pad2(&mut s, self.hour);
        s.push(':');
        push_pad2(&mut s, self.minute);
        s.push(':');
        push_pad2(&mut s, self.second);
        s.push('Z');
        proof {
            assert(s@ =~= self.rfc3339());
        }
        s
    }
}

/// Text of exactly the shape the library writes: `YYYY-MM-DDThh:mm:ssZ`,
/// twenty characters, digits and separators in their places.
pub open spec fn rfc3339_shape(s: Seq<char>) -> bool {
    &&& s.len() == 20
    &&& is_digit_char(s[0])
    &&& is_digit_char(s[1])
    &&& is_digit_char(s[2])
    &&& is_digit_char(s[3])
    &&& s[4] == '-'
    &&& is_digit_char(s[5])
    &&& is_digit_char(s[6])
    &&& s[7] == '-'
    &&& is_digit_char(s[8])
    &&& is_digit_char(s[9])
    &&& s[10] == 'T'
    &&& is_digit_char(s[11])
    &&& is_digit_char(s[12])
    &&& s[13] == ':'
    &&& is_digit_char(s[14])
    &&& is_digit_char(s[15])
    &&& s[16] == ':'
    &&& is_digit_char(s[17])
    &&& is_digit_char(s[18])
    &&& s[19] == 'Z'
}

/// The timestamp read off text of the RFC 3339 shape, field by field.
pub open spec fn timestamp_of_text(s: Seq<char>) -> Timestamp {
    Timestamp {
        year: (digit_val(s[0]) * 1000 + digit_val(s[1]) * 100 + digit_val(s[2]) * 10 + digit_val(
            s[3],
        )) as u16,
        month: (digit_val(s[5]) * 10 + digit_val(s[6])) as u8,
        day: (digit_val(s[8]) * 10 + digit_val(s[9])) as u8,
        hour: (digit_val(s[11]) * 10 + digit_val(s[12])) as u8,
        minute: (digit_val(s[14]) * 10 + digit_val(s[15])) as u8,
        second: (digit_val(s[17]) * 10 + digit_val(s[18])) as u8,
    }
}

/// What RFC 3339 text parses to: a well-formed timestamp for text of the
/// library's own shape, nothing for anything else.
pub open spec fn parse_rfc3339_spec(s: Seq<char>) -> Option<Timestamp> {
    if rfc3339_shape(s) && timestamp_of_text(s).wf() {
        Some(timestamp_of_text(s))
    } else {
        None
    }
}

/// One digit character's value, or nothing for any other character.
fn digit_of(c: char) -> (r: Option<u8>)
    ensures
        match r {
            Some(d) => is_digit_char(c) && d as nat == digit_val(c) && d < 10,
            None => !is_digit_char(c),
        },
{
    let x: u32 = c as u32;
    if 48 <= x && x <= 57 {
        Some((x - 48) as u8)
    } else {
        None
    }
}

/// Parse RFC 3339 text of the library's own `YYYY-MM-DDThh:mm:ssZ` shape
/// back into a timestamp.
pub fn parse_rfc3339(s: &str) -> (r: Option<Timestamp>)
    ensures
        r == parse_rfc3339_spec(s@),
{
    let n: usize = s.unicode_len();
    if n != 20 {
        return None;
    }
    if s.get_char(4) != '-' || s.get_char(7) != '-' || s.get_char(10) != 'T' || s.get_char(13)
        != ':' || s.get_char(16) != ':' || s.get_char(19) != 'Z' {
        return None;
    }
    let y0 = match digit_of(s.get_char(0)) {
        Some(d) => d,
        None => return None,
    };
    let y1 = match digit_of(s.get_char(1)) {
        Some(d) => d,
        None => return None,
    };
    let y2 = match digit_of(s.get_char(2)) {
        Some(d) => d,
        None => return None,
    };
    let y3 = match digit_of(s.get_char(3)) {
        Some(d) => d,
        None => return None,
    };
    let mo0 = match digit_of(s.get_char(5)) {
        Some(d) => d,
        None => return None,
    };
    let mo1 = match digit_of(s.get_char(6)) {
        Some(d) => d,
        None => return None,
    };
    let d0 = match digit_of(s.get_char(8)) {
        Some(d) => d,
        None => return None,
    };
    let d1 = match digit_of(s.get_char(9)) {
        Some(d) => d,
        None => return None,
    };
    let h0 = match digit_of(s.get_char(11)) {
        Some(d) => d,
        None => return None,
    };
    let h1 = match digit_of(s.get_char(12)) {
        Some(d) => d,
        None => return None,
    };
    let mi0 = match digit_of(s.get_char(14)) {
        Some(d) => d,
        None => return None,
    };
    let mi1 = match digit_of(s.get_char(15)) {
        Some(d) => d,
        None => return None,
    };
    let s0 = match digit_of(s.get_char(17)) {
        Some(d) => d,
        None => return None,
    };
    let s1 = match digit_of(s.get_char(18)) {
        Some(d) => d,
        None => return None,
    };
    let t = Timestamp {
        year: (y0 as u16) * 1000 + (y1 as u16) * 100 + (y2 as u16) * 10 + (y3 as u16),
        month: mo0 * 10 + mo1,
        day: d0 * 10 + d1,
        hour: h0 * 10 + h1,
        minute: mi0 * 10 + mi1,
        second: s0 * 10 + s1,
    };
    proof {
        assert(rfc3339_shape(s@));
        assert(t == timestamp_of_text(s@));
    }
    if t.is_wf() {
        Some(t)
    } else {
        None
    }
}

/// Parsing the library's own RFC 3339 text gives the timestamp back
/// unchanged: the round trip through the textual form loses nothing.
pub proof fn lemma_rfc3339_round_trip(t: Timestamp)
    requires
        t.wf(),
    ensures
        parse_rfc3339_spec(t.rfc3339()) == Some(t),
{
    let s = t.rfc3339();
    lemma_digit_char_val(t.year as nat / 1000);
    lemma_digit_char_val(t.year as nat / 100 % 10);
    lemma_digit_char_val(t.year as nat / 10 % 10);
    lemma_digit_char_val(t.year as nat % 10);
    lemma_digit_char_val(t.month as nat / 10);
    lemma_digit_char_val(t.month as nat % 10);
    lemma_digit_char_val(t.day as nat / 10);
    lemma_digit_char_val(t.day as nat % 10);
    lemma_digit_char_val(t.hour as nat / 10);
    lemma_digit_char_val(t.hour as nat % 10);
    lemma_digit_char_val(t.minute as nat / 10);
    lemma_digit_char_val(t.minute as nat % 10);
    lemma_digit_char_val(t.second as nat / 10);
    lemma_digit_char_val(t.second as nat % 10);
    assert(rfc3339_shape(s));
    lemma_recompose4(t.year as nat);
    lemma_fundamental_div_mod(t.month as int, 10);
    lemma_fundamental_div_mod(t.day as int, 10);
    lemma_fundamental_div_mod(t.hour as int, 10);
    lemma_fundamental_div_mod(t.minute as int, 10);
    lemma_fundamental_div_mod(t.second as int, 10);
    assert(timestamp_of_text(s) == t);
}

/// A timestamp survives the round trip through its RFC 3339 text: two
/// well-formed timestamps with the same text are the same instant, so
/// parsing the text back recovers every field exactly.
pub proof fn lemma_rfc3339_injective(t1: Timestamp, t2: Timestamp)
    requires
        t1.wf(),
        t2.wf(),
        t1.rfc3339() == t2.rfc3339(),
    ensures
        t1 == t2,
{
    let s1 = t1.rfc3339();
    let s2 = t2.rfc3339();
    assert(pad4(t1.year as nat) =~= pad4(t2.year as nat)) by {
        assert forall|i: int| 0 <= i < 4 implies pad4(t1.year as nat)[i] == pad4(
            t2.year as nat,
        )[i] by {
            assert(s1[i] == pad4(t1.year as nat)[i]);
            assert(s2[i] == pad4(t2.year as nat)[i]);
        }
    }
    lemma_pad4_inj(t1.year as nat, t2.year as nat);
    assert(pad2(t1.month as nat) =~= pad2(t2.month as nat)) by {
        assert forall|i: int| 0 <= i < 2 implies pad2(t1.month as nat)[i] == pad2(
            t2.month as nat,
        )[i] by {
            assert(s1[5 + i] == pad2(t1.month as nat)[i]);
            assert(s2[5 + i] == pad2(t2.month as nat)[i]);
        }
    }
    lemma_pad2_inj(t1.month as nat, t2.month as nat);
    assert(pad2(t1.day as nat) =~= pad2(t2.day as nat)) by {
        assert forall|i: int| 0 <= i < 2 implies pad2(t1.day as nat)[i] == pad2(
            t2.day as nat,
        )[i] by {
            assert(s1[8 + i] == pad2(t1.day as nat)[i]);
            assert(s2[8 + i] == pad2(t2.day as nat)[i]);
        }
    }
    lemma_pad2_inj(t1.day as nat, t2.day as nat);
    assert(pad2(t1.hour as nat) =~= pad2(t2.hour as nat)) by {
        assert forall|i: int| 0 <= i < 2 implies pad2(t1.hour as nat)[i] == pad2(
            t2.hour as nat,
        )[i] by {
            assert(s1[11 + i] == pad2(t1.hour as nat)[i]);
            assert(s2[11 + i] == pad2(t2.hour as nat)[i]);
        }
    }
    lemma_pad2_inj(t1.hour as nat, t2.hour as nat);
    assert(pad2(t1.minute as nat) =~= pad2(t2.minute as nat)) by {
        assert forall|i: int| 0 <= i < 2 implies pad2(t1.minute as nat)[i] == pad2(
            t2.minute as nat,
        )[i] by {
            assert(s1[14 + i] == pad2(t1.minute as nat)[i]);
            assert(s2[14 + i] == pad2(t2.minute as nat)[i]);
        }
    }
    lemma_pad2_inj(t1.minute as nat, t2.minute as nat);
    assert(pad2(t1.second as nat) =~= pad2(t2.second as nat)) by {
        assert forall|i: int| 0 <= i < 2 implies pad2(t1.second as nat)[i] == pad2(
            t2.second as nat,
        )[i] by {
            assert(s1[17 + i] == pad2(t1.second as nat)[i]);
            assert(s2[17 + i] == pad2(t2.second as nat)[i]);
        }
    }
    lemma_pad2_inj(t1.second as nat, t2.second as nat);
}

} // verus!
