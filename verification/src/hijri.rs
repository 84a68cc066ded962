pub mod cal;

use vstd::prelude::*;
use vstd::string::StringExecFns;

use crate::hijri::cal::{
    gregorian_to_julian, hijri_to_julian, julian_to_gregorian, julian_to_hijri,
    spec_gregorian_to_julian, spec_hijri_to_julian, spec_julian_to_gregorian,
    spec_julian_to_hijri,
};
use crate::time::{valid_date, Date};

verus! {

/// Errors of the Hijri calendar subsystem.
#[derive(Debug, PartialEq, Eq, Clone)]
pub enum HijriError {
    /// A month number outside 1..=12 was supplied.
    InvalidMonth(u32),
    /// A date is not representable; the payload describes it.
    InvalidTime(String),
}

/// The decimal digit character for one digit value.
pub open spec fn spec_dec_digit(k: int) -> char {
    if k == 0 {
        '0'
    } else if k == 1 {
        '1'
    } else if k == 2 {
        '2'
    } else if k == 3 {
        '3'
    } else if k == 4 {
        '4'
    } else if k == 5 {
        '5'
    } else if k == 6 {
        '6'
    } else if k == 7 {
        '7'
    } else if k == 8 {
        '8'
    } else {
        '9'
    }
}

/// The decimal digit string of a non-negative number, most significant digit
/// first.
pub open spec fn spec_dec_str(n: int) -> Seq<char>
    decreases n,
{
    if n < 10 {
        seq![spec_dec_digit(n)]
    } else {
        spec_dec_str(n / 10).push(spec_dec_digit(n % 10))
    }
}

fn dec_digit(k: u32) -> (r: &'static str)
    requires
        k <= 9,
    ensures
        r@ == seq![spec_dec_digit(k as int)],
{
    let r: &'static str = match k {
        0 => "0",
        1 => "1",
        2 => "2",
        3 => "3",
        4 => "4",
        5 => "5",
        6 => "6",
        7 => "7",
        8 => "8",
        _ => "9",
    };
    proof {
        reveal_strlit("0");
        reveal_strlit("1");
        reveal_strlit("2");
        reveal_strlit("3");
        reveal_strlit("4");
        reveal_strlit("5");
        reveal_strlit("6");
        reveal_strlit("7");
        reveal_strlit("8");
        reveal_strlit("9");
        assert(r@ =~= seq![spec_dec_digit(k as int)]);
    }
    r
}

/// Renders a number in decimal.
fn dec_string(n: u32) -> (r: String)
    ensures
        r@ == spec_dec_str(n as int),
    decreases n,
{
    if n < 10 {
        String::from_str(dec_digit(n))
    } else {
        let mut s = dec_string(n / 10);
        s.append(dec_digit(n % 10));
        proof {
            assert(s@ =~= spec_dec_str(n as int));
        }
        s
    }
}

impl HijriError {
    /// The error rendered as text, as it is reported to a caller.
    pub fn to_string(&self) -> (r: String)
        ensures
            self matches HijriError::InvalidMonth(m) ==> r@ == "No such month: "@
                + spec_dec_str(m as int),
            self matches HijriError::InvalidTime(s) ==> r@ == "No such time: "@ + s@,
    {
        match self {
            HijriError::InvalidMonth(m) => {
                let mut s = String::from_str("No such month: ");
                s.append(dec_string(*m).as_str());
                s
            },
            HijriError::InvalidTime(t) => {
                let mut s = String::from_str("No such time: ");
                s.append(t.as_str());
                s
            },
        }
    }
}

/// The Arabic name of a Hijri month.
pub open spec fn spec_month_arabic(m: int) -> Seq<char> {
    if m == 1 {
        "محرم"@
    } else if m == 2 {
        "صفر"@
    } else if m == 3 {
        "ربيع الأول"@
    } else if m == 4 {
        "ربيع الثاني"@
    } else if m == 5 {
        "جمادى الأولى"@
    } else if m == 6 {
        "جمادى الثانية"@
    } else if m == 7 {
        "رجب"@
    } else if m == 8 {
        "شعبان"@
    } else if m == 9 {
        "رمضان"@
    } else if m == 10 {
        "شوال"@
    } else if m == 11 {
        "ذو القعدة"@
    } else {
        "ذو الحجة"@
    }
}

/// The romanized name of a Hijri month.
pub open spec fn spec_month_english(m: int) -> Seq<char> {
    if m == 1 {
        "Moharram"@
    } else if m == 2 {
        "Safar"@
    } else if m == 3 {
        "Rabie-I"@
    } else if m == 4 {
        "Rabie-II"@
    } else if m == 5 {
        "Jumada-I"@
    } else if m == 6 {
        "Jumada-II"@
    } else if m == 7 {
        "Rajab"@
    } else if m == 8 {
        "Shaban"@
    } else if m == 9 {
        "Ramadan"@
    } else if m == 10 {
        "Shawwal"@
    } else if m == 11 {
        "Delqada"@
    } else {
        "Delhijja"@
    }
}

/// A date of the tabular Hijri calendar.  Only the month is validated at
/// construction; conversions validate the whole date.
#[derive(Debug, Clone)]
pub struct HijriDate {
    pub year: i32,
    pub month: u32,
    pub month_arabic: String,
    pub month_english: String,
    pub day: u32,
}

impl HijriDate {
    /// The month is a real month and the name fields belong to it.
    pub open spec fn wf(self) -> bool {
        &&& 1 <= self.month <= 12
        &&& self.month_arabic@ == spec_month_arabic(self.month as int)
        &&& self.month_english@ == spec_month_english(self.month as int)
    }

    /// Builds a Hijri date; the only check made here is that the month
    /// exists, exactly as for a hand-written date.
    pub fn new(year: i32, month: u32, day: u32) -> (r: Result<Self, HijriError>)
        ensures
            r is Ok <==> 1 <= month <= 12,
            r matches Ok(h) ==> h.year == year && h.month == month && h.day == day && h.wf(),
            r matches Err(e) ==> e == HijriError::InvalidMonth(month),
    {
        if !(1 <= month && month <= 12) {
            return Err(HijriError::InvalidMonth(month));
        }
        Ok(Self {
            year,
            month,
            day,
            month_arabic: Self::month_arabic(month),
            month_english: Self::month_english(month),
        })
    }

    fn month_arabic(month: u32) -> (r: String)
        requires
            1 <= month <= 12,
        ensures
            r@ == spec_month_arabic(month as int),
    {
        match month {
            1 => String::from_str("محرم"),
            2 => String::from_str("صفر"),
            3 => String::from_str("ربيع الأول"),
            4 => String::from_str("ربيع الثاني"),
            5 => String::from_str("جمادى الأولى"),
            6 => String::from_str("جمادى الثانية"),
            7 => String::from_str("رجب"),
            8 => String::from_str("شعبان"),
            9 => String::from_str("رمضان"),
            10 => String::from_str("شوال"),
            11 => String::from_str("ذو القعدة"),
            _ => String::from_str("ذو الحجة"),
        }
    }

    /// The tabular day count of this Hijri date; fails exactly when the
    /// date's components do not pass the library's calendar-day validation.
    pub fn to_julian(&self) -> (r: Result<i32, HijriError>)
        ensures
            r is Ok <==> valid_date(self.year as int, self.month as int, self.day as int),
            r matches Ok(j) ==> j == spec_hijri_to_julian(
                self.year as int,
                self.month as int,
                self.day as int,
            ),
            r matches Err(e) ==> e matches HijriError::InvalidTime(_),
    {
        let date = match Date::new(self.year, self.month, self.day) {
            Ok(d) => d,
            Err(_) => {
                return Err(
                    HijriError::InvalidTime(String::from_str("not a representable date")),
                );
            },
        };
        Ok(hijri_to_julian(&date))
    }

    /// The Gregorian date with the same tabular day count.  Fails when this
    /// Hijri date does not validate, or when the decoded Gregorian triple is
    /// itself out of the library's date range.
    pub fn to_gregorian(&self) -> (r: Result<Date, HijriError>)
        ensures
            !valid_date(self.year as int, self.month as int, self.day as int) ==> r is Err,
            valid_date(self.year as int, self.month as int, self.day as int) ==> {
                let g = spec_julian_to_gregorian(
                    spec_hijri_to_julian(self.year as int, self.month as int, self.day as int),
                );
                &&& (r is Ok <==> valid_date(g.0, g.1, g.2))
                &&& (r matches Ok(d) ==> (d.year as int, d.month as int, d.day as int) == g)
            },
            r matches Err(e) ==> e matches HijriError::InvalidTime(_),
    {
        let j: i32 = self.to_julian()?;
        proof {
            crate::hijri::cal::lemma_hijri_encode_range(
                self.year as int,
                self.month as int,
                self.day as int,
            );
        }
        let (y, m, d) = julian_to_gregorian(j as i64);
        match Date::new(y, m, d) {
            Ok(date) => Ok(date),
            Err(_) => Err(HijriError::InvalidTime(String::from_str("not a representable date"))),
        }
    }

    /// The Hijri date one day later, by converting to the day count and back.
    pub fn next_date(self) -> (r: Result<Self, HijriError>)
        requires
            valid_date(self.year as int, self.month as int, self.day as int) ==> 1_937_809
                <= spec_hijri_to_julian(self.year as int, self.month as int, self.day as int) + 1
                <= 16_000_000,
        ensures
            r is Ok <==> valid_date(self.year as int, self.month as int, self.day as int),
            r matches Ok(h) ==> h.wf() && (h.year as int, h.month as int, h.day as int)
                == spec_julian_to_hijri(
                spec_hijri_to_julian(self.year as int, self.month as int, self.day as int) + 1,
            ),
            r matches Err(e) ==> e matches HijriError::InvalidTime(_),
    {
        let j: i32 = self.to_julian()?;
        Ok(Self::from_julian(j + 1, 0))
    }

    /// The Hijri date of a day count, with a caller-supplied correction for
    /// locally observed moon sightings.
    pub fn from_julian(julian_date: i32, correction_val: i32) -> (r: Self)
        requires
            1_937_809 <= julian_date + correction_val <= 16_000_000,
        ensures
            r.wf(),
            (r.year as int, r.month as int, r.day as int) == spec_julian_to_hijri(
                julian_date + correction_val,
            ),
    {
        let (year, month, day) = julian_to_hijri(julian_date, correction_val);
        Self {
            year,
            month,
            day,
            month_arabic: Self::month_arabic(month),
            month_english: Self::month_english(month),
        }
    }

    /// The Hijri date of a Gregorian date: the Gregorian day count (which
    /// sits a few days above the tabular Hijri count, a known bias of this
    /// method) plus the correction, decoded as a tabular Hijri date.
    pub fn from_gregorian(date: Date, correction_val: i32) -> (r: Self)
        requires
            date.wf(),
            1_937_809 <= spec_gregorian_to_julian(
                date.year as int,
                date.month as int,
                date.day as int,
            ) + correction_val <= 16_000_000,
        ensures
            r.wf(),
            (r.year as int, r.month as int, r.day as int) == spec_julian_to_hijri(
                spec_gregorian_to_julian(date.year as int, date.month as int, date.day as int)
                    + correction_val,
            ),
    {
        proof {
            crate::hijri::cal::lemma_gregorian_encode_range(
                date.year as int,
                date.month as int,
                date.day as int,
            );
        }
        let g: i64 = gregorian_to_julian(&date);
        let (year, month, day) = julian_to_hijri(g as i32, correction_val);
        Self {
            year,
            month,
            day,
            month_arabic: Self::month_arabic(month),
            month_english: Self::month_english(month),
        }
    }

    /// Today's Hijri date, from the system clock.  Fails when the clock (with
    /// the correction applied) is outside the supported era.
    pub fn today(correction_val: i32) -> (r: Result<Self, HijriError>)
        ensures
            r matches Ok(h) ==> h.wf(),
            r matches Err(e) ==> e matches HijriError::InvalidTime(_),
    {
        let date = match crate::time::today() {
            Ok(d) => d,
            Err(_) => {
                return Err(HijriError::InvalidTime(String::from_str("the clock is out of range")));
            },
        };
        proof {
            crate::hijri::cal::lemma_gregorian_encode_range(
                date.year as int,
                date.month as int,
                date.day as int,
            );
        }
        let g: i64 = gregorian_to_julian(&date);
        let s: i64 = g + correction_val as i64;
        if s < 1_937_809 || s > 16_000_000 {
            return Err(
                HijriError::InvalidTime(String::from_str("outside the tabular Hijri era")),
            );
        }
        Ok(Self::from_gregorian(date, correction_val))
    }

    fn month_english(month: u32) -> (r: String)
        requires
            1 <= month <= 12,
        ensures
            r@ == spec_month_english(month as int),
    {
        match month {
            1 => String::from_str("Moharram"),
            2 => String::from_str("Safar"),
            3 => String::from_str("Rabie-I"),
            4 => String::from_str("Rabie-II"),
            5 => String::from_str("Jumada-I"),
            6 => String::from_str("Jumada-II"),
            7 => String::from_str("Rajab"),
            8 => String::from_str("Shaban"),
            9 => String::from_str("Ramadan"),
            10 => String::from_str("Shawwal"),
            11 => String::from_str("Delqada"),
            _ => String::from_str("Delhijja"),
        }
    }
}

} // verus!
