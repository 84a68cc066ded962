use vstd::prelude::*;

use crate::time::Date;

verus! {

/// Truncating (round-toward-zero) integer division, the semantics of the
/// machine division these formulas were defined with.  Only used with b > 0.
pub open spec fn tdiv(a: int, b: int) -> int {
    if a >= 0 {
        a / b
    } else {
        -((-a) / b)
    }
}

/// Floor division for b > 0 (equal to Euclidean division, which is what `/`
/// means in specifications).
fn div_floor(a: i64, b: i64) -> (r: i64)
    requires
        b > 0,
        i64::MIN < a,
    ensures
        r == a as int / b as int,
{
    proof {
        lemma_div_in_operand_range(a as int, b as int);
    }
    a.checked_div_euclid(b).unwrap()
}

/// Truncating division for b > 0, the behaviour of `/` on machine integers.
fn div_trunc(a: i64, b: i64) -> (r: i64)
    requires
        b > 0,
        i64::MIN < a,
    ensures
        r == tdiv(a as int, b as int),
{
    proof {
        lemma_div_in_operand_range(a as int, b as int);
        lemma_div_in_operand_range(-(a as int), b as int);
    }
    a.checked_div(b).unwrap()
}

/// For a positive divisor the quotient lies between 0 and the dividend.
proof fn lemma_div_in_operand_range(a: int, b: int)
    requires
        b > 0,
    ensures
        a >= 0 ==> 0 <= a / b <= a,
        a < 0 ==> a <= a / b <= 0,
{
    vstd::arithmetic::div_mod::lemma_fundamental_div_mod(a, b);
    vstd::arithmetic::div_mod::lemma_mod_division_less_than_divisor(a, b);
    let q: int = a / b;
    let r: int = a % b;
    assert(a >= 0 ==> 0 <= q <= a) by (nonlinear_arith)
        requires
            b > 0,
            a == b * q + r,
            0 <= r < b,
    ;
    assert(a < 0 ==> a <= q <= 0) by (nonlinear_arith)
        requires
            b > 0,
            a == b * q + r,
            0 <= r < b,
    ;
}

/// The day count assigned to a Hijri calendar date by the tabular
/// (30-year-cycle) method: a closed arithmetic formula, not a lunar
/// observation.
pub open spec fn spec_hijri_to_julian(y: int, m: int, d: int) -> int {
    tdiv(11 * y + 3, 30) + 354 * y + 30 * m - tdiv(m - 1, 2) + d + 1948440 - 385
}

/// Maps a Hijri date, carried in a `Date` value, to its tabular day count.
pub fn hijri_to_julian(date: &Date) -> (r: i32)
    requires
        date.wf(),
    ensures
        r == spec_hijri_to_julian(date.year as int, date.month as int, date.day as int),
{
    let y: i64 = date.year as i64;
    let m: i64 = date.month as i64;
    let d: i64 = date.day as i64;
    let q: i64 = div_trunc(11 * y + 3, 30);
    let h: i64 = div_trunc(m - 1, 2);
    (q + 354 * y + 30 * m - h + d + 1948440 - 385) as i32
}

/// The truncated astronomical Julian day number of a Gregorian calendar date
/// (the untruncated value refers to noon, half a day later).  Uses the
/// standard algorithm with the 1582-10-15 Gregorian-reform cutover.
pub open spec fn spec_gregorian_to_julian(y0: int, m0: int, d: int) -> int {
    let y: int = if m0 <= 2 {
        y0 - 1
    } else {
        y0
    };
    let m: int = if m0 <= 2 {
        m0 + 12
    } else {
        m0
    };
    let a: int = y / 100;
    let b: int = if y > 1582 || (y == 1582 && m > 10) || (m == 10 && d > 15) {
        2 - a + tdiv(a, 4)
    } else {
        0
    };
    let x: int = (1461 * (y + 4716)) / 4 + (153 * (m + 1)) / 5 + d + b;
    if x >= 1525 {
        x - 1525
    } else {
        x - 1524
    }
}

pub fn gregorian_to_julian(date: &Date) -> (r: i64)
    requires
        date.wf(),
    ensures
        r == spec_gregorian_to_julian(date.year as int, date.month as int, date.day as int),
{
    let mut y: i64 = date.year as i64;
    let mut m: i64 = date.month as i64;
    let d: i64 = date.day as i64;
    if m <= 2 {
        m = m + 12;
        y = y - 1;
    }
    let a: i64 = div_floor(y, 100);
    let b: i64 = if y > 1582 || (y == 1582 && m > 10) || (m == 10 && d > 15) {
        2 - a + div_trunc(a, 4)
    } else {
        0
    };
    let x: i64 = div_floor(1461 * (y + 4716), 4) + div_floor(153 * (m + 1), 5) + d + b;
    if x >= 1525 {
        x - 1525
    } else {
        x - 1524
    }
}

/// The Gregorian (or, before the reform, Julian) calendar date of a day
/// count, by the conventional integer decomposition; the divisor written
/// 306001 here is the load-bearing 30.6001 of the classical formulation.
/// The day count it decodes is the one `spec_hijri_to_julian` produces,
/// which sits five days below `z`.
pub open spec fn spec_julian_to_gregorian(jd: int) -> (int, int, int) {
    let z: int = jd + 5;
    let a: int = if z < 2299161 {
        z
    } else {
        let alpha: int = (4 * z - 7468865) / 146097;
        z + 1 + alpha - tdiv(alpha, 4)
    };
    let b: int = a + 1524;
    let c: int = (20 * b - 2442) / 7305;
    let dd: int = (1461 * c) / 4;
    let e: int = (10000 * (b - dd)) / 306001;
    let day: int = b - dd - (306001 * e) / 10000;
    let month: int = if e < 14 {
        e - 1
    } else {
        e - 13
    };
    let year: int = if month > 2 {
        c - 4716
    } else {
        c - 4715
    };
    (year, month, day)
}

pub fn julian_to_gregorian(julian_day: i64) -> (r: (i32, u32, u32))
    requires
        -3_000_000 <= julian_day <= 100_000_000,
    ensures
        (r.0 as int, r.1 as int, r.2 as int) == spec_julian_to_gregorian(julian_day as int),
        1 <= r.1 <= 12,
        1 <= r.2 <= 31,
{
    let z: i64 = julian_day + 5;
    let a: i64 = if z < 2299161 {
        z
    } else {
        let alpha: i64 = div_floor(4 * z - 7468865, 146097);
        z + 1 + alpha - div_trunc(alpha, 4)
    };
    let b: i64 = a + 1524;
    let c: i64 = div_floor(20 * b - 2442, 7305);
    let dd: i64 = div_floor(1461 * c, 4);
    let e: i64 = div_floor(10000 * (b - dd), 306001);
    let day: i64 = b - dd - div_floor(306001 * e, 10000);
    let month: i64 = if e < 14 {
        e - 1
    } else {
        e - 13
    };
    let year: i64 = if month > 2 {
        c - 4716
    } else {
        c - 4715
    };
    proof {
        lemma_gregorian_decode_ranges(julian_day as int);
    }
    (year as i32, month as u32, day as u32)
}

/// Over the whole accepted day-count range the decoded month and day are in
/// calendar range (so the narrowing casts above are value-preserving).
proof fn lemma_gregorian_decode_ranges(jd: int)
    requires
        -3_000_000 <= jd <= 100_000_000,
    ensures
        1 <= spec_julian_to_gregorian(jd).1 <= 12,
        1 <= spec_julian_to_gregorian(jd).2 <= 31,
        -13_000 <= spec_julian_to_gregorian(jd).0 <= 300_000,
{
    let z: int = jd + 5;
    let a: int = if z < 2299161 {
        z
    } else {
        let alpha: int = (4 * z - 7468865) / 146097;
        z + 1 + alpha - tdiv(alpha, 4)
    };
    if z >= 2299161 {
        let alpha: int = (4 * z - 7468865) / 146097;
        lemma_div_by_constant(4 * z - 7468865, 146097);
        lemma_div_by_constant(alpha, 4);
        assert(0 <= alpha <= 2735);
    }
    let b: int = a + 1524;
    let c: int = (20 * b - 2442) / 7305;
    let dd: int = (1461 * c) / 4;
    let e: int = (10000 * (b - dd)) / 306001;
    let day: int = b - dd - (306001 * e) / 10000;
    lemma_div_by_constant(20 * b - 2442, 7305);
    lemma_div_by_constant(1461 * c, 4);
    assert(123 <= b - dd <= 488);
    lemma_div_by_constant(10000 * (b - dd), 306001);
    assert(4 <= e <= 15);
    lemma_div_by_constant(306001 * e, 10000);
    assert(0 <= day <= 31);
    assert(day != 0) by {
        if day == 0 {
            assert(10000 * (b - dd) == 306001 * e);
        }
    };
}

/// Position of a day within the 30-year, 10631-day tabular Hijri cycle:
/// which year of the cycle (1..=30) the day count `l1` falls in.
pub open spec fn hijri_cycle_year(l1: int) -> int {
    if l1 <= 5669 {
        (50 * l1) / 17719
    } else {
        (43 * l1) / 15238
    }
}

/// Days of the cycle that precede year `j` of the cycle (both fractions
/// approximate the mean tabular year of 10631/30 days; which one is used
/// switches halfway through the cycle).
pub open spec fn hijri_cycle_days(j: int) -> int {
    if j <= 15 {
        (17719 * j) / 50
    } else {
        (15238 * j) / 43
    }
}

/// The tabular Hijri date of a (possibly correction-shifted) day count `s`:
/// the cycle number and position locate the year, and two further divisions
/// split the remaining days into month and day.
pub open spec fn spec_julian_to_hijri(s: int) -> (int, int, int) {
    let l0: int = s - 1937808;
    let n: int = (l0 - 1) / 10631;
    let l1: int = l0 - 10631 * n + 354;
    let j: int = hijri_cycle_year(l1);
    let l2: int = l1 - hijri_cycle_days(j) + 29;
    let month: int = (24 * l2) / 709;
    let day: int = l2 - (709 * month) / 24;
    let year: int = 30 * n + j - 30;
    (year, month, day)
}

/// Maps a day count (plus a caller-supplied correction for locally observed
/// moon sightings) to the tabular Hijri year, month and day.  The bounds keep
/// the day count inside the era where the tabular formulas are meaningful and
/// the month provably lands in 1..=12.
pub fn julian_to_hijri(julian_day: i32, correction_val: i32) -> (r: (i32, u32, u32))
    requires
        1_937_809 <= julian_day + correction_val <= 16_000_000,
    ensures
        (r.0 as int, r.1 as int, r.2 as int) == spec_julian_to_hijri(
            julian_day + correction_val,
        ),
        1 <= r.1 <= 12,
        1 <= r.2 <= 30,
{
    let s: i64 = julian_day as i64 + correction_val as i64;
    let l0: i64 = s - 1937808;
    let n: i64 = div_floor(l0 - 1, 10631);
    let l1: i64 = l0 - 10631 * n + 354;
    proof {
        lemma_hijri_decode_ranges(s as int);
        lemma_div_by_constant(l0 - 1, 10631);
    }
    let j: i64 = if l1 <= 5669 {
        div_floor(50 * l1, 17719)
    } else {
        div_floor(43 * l1, 15238)
    };
    let cum: i64 = if j <= 15 {
        div_floor(17719 * j, 50)
    } else {
        div_floor(15238 * j, 43)
    };
    let l2: i64 = l1 - cum + 29;
    let month: i64 = div_floor(24 * l2, 709);
    let day: i64 = l2 - div_floor(709 * month, 24);
    let year: i64 = 30 * n + j - 30;
    (year as i32, month as u32, day as u32)
}

/// Over the accepted day-count range the decoded month is a real month, the
/// day is in 1..=30 and the year is small.
proof fn lemma_hijri_decode_ranges(s: int)
    requires
        1_937_809 <= s <= 16_000_000,
    ensures
        1 <= spec_julian_to_hijri(s).1 <= 12,
        1 <= spec_julian_to_hijri(s).2 <= 30,
        -29 <= spec_julian_to_hijri(s).0 <= 46_000,
        355 <= hijri_decode_l1(s) <= 10985,
        30 <= hijri_decode_l2(s) <= 384,
{
    let l0: int = s - 1937808;
    lemma_div_by_constant(l0 - 1, 10631);
    let n: int = (l0 - 1) / 10631;
    let l1: int = l0 - 10631 * n + 354;
    assert(355 <= l1 <= 10985);
    let j: int = hijri_cycle_year(l1);
    if l1 <= 5669 {
        lemma_div_by_constant(50 * l1, 17719);
    } else {
        lemma_div_by_constant(43 * l1, 15238);
    }
    assert(1 <= j <= 30);
    let cum: int = hijri_cycle_days(j);
    if j <= 15 {
        lemma_div_by_constant(17719 * j, 50);
        assert(cum <= l1 - 1) by {
            if cum >= l1 {
                assert(17719 * j == 50 * l1);
                assert(false);
            }
        };
    } else {
        lemma_div_by_constant(15238 * j, 43);
        assert(cum <= l1 - 1) by {
            if cum >= l1 {
                assert(15238 * j == 43 * l1);
                assert(false);
            }
        };
    }
    let l2: int = l1 - cum + 29;
    assert(30 <= l2 <= 384);
    let month: int = (24 * l2) / 709;
    lemma_div_by_constant(24 * l2, 709);
    assert(1 <= month <= 12);
    lemma_div_by_constant(709 * month, 24);
    let day: int = l2 - (709 * month) / 24;
    assert(1 <= day <= 30) by {
        if (709 * month) / 24 >= l2 {
            assert(709 * month == 24 * l2);
            assert(false);
        }
    };
}

/// The in-cycle position the decoder computes for day count `s`.
spec fn hijri_decode_l1(s: int) -> int {
    let l0: int = s - 1937808;
    let n: int = (l0 - 1) / 10631;
    l0 - 10631 * n + 354
}

/// The month-and-day remainder the decoder computes for day count `s`.
spec fn hijri_decode_l2(s: int) -> int {
    let l1: int = hijri_decode_l1(s);
    l1 - hijri_cycle_days(hijri_cycle_year(l1)) + 29
}

/// Is a Hijri year long (355 days) in the tabular 30-year cycle?
pub open spec fn hijri_leap_year(y: int) -> bool {
    (11 * y + 14) % 30 < 11
}

/// Days of a tabular Hijri month: odd months have 30, even months 29, and
/// the twelfth month 30 in a long year.
pub open spec fn hijri_month_days(y: int, m: int) -> int {
    if m % 2 == 1 {
        30
    } else if m == 12 && hijri_leap_year(y) {
        30
    } else {
        29
    }
}

/// A canonical tabular Hijri date: a positive year, a real month, and a day
/// the tabular month actually has.
pub open spec fn valid_hijri_date(y: int, m: int, d: int) -> bool {
    &&& 1 <= y
    &&& 1 <= m <= 12
    &&& 1 <= d <= hijri_month_days(y, m)
}

/// Converting a day count to a tabular Hijri date and back returns the same
/// day count: on day counts from the epoch of the Hijri calendar onward, the
/// decoder is a right inverse of the encoder.
pub proof fn lemma_hijri_round_trip_days(s: int)
    requires
        1_948_440 <= s <= 16_000_000,
    ensures
        ({
            let (y, m, d) = spec_julian_to_hijri(s);
            &&& spec_hijri_to_julian(y, m, d) == s
            &&& 1 <= y
        }),
{
    lemma_hijri_decode_ranges(s);
    let l0: int = s - 1937808;
    lemma_div_by_constant(l0 - 1, 10631);
    let n: int = (l0 - 1) / 10631;
    let l1: int = l0 - 10631 * n + 354;
    assert(n >= 1);
    assert(355 <= l1 <= 10985);
    let j: int = hijri_cycle_year(l1);
    if l1 <= 5669 {
        lemma_div_by_constant(50 * l1, 17719);
    } else {
        lemma_div_by_constant(43 * l1, 15238);
    }
    assert(1 <= j <= 30);
    let cum: int = hijri_cycle_days(j);
    // the decoder's cumulative-days fraction equals the encoder's per-year term
    assert(cum == 354 * j + (11 * j + 3) / 30) by {
        if j <= 15 {
            lemma_div_by_constant(17719 * j, 50);
        } else {
            lemma_div_by_constant(15238 * j, 43);
        }
        lemma_div_by_constant(11 * j + 3, 30);
    };
    let l2: int = l1 - cum + 29;
    assert(30 <= l2 <= 384);
    let month: int = (24 * l2) / 709;
    lemma_div_by_constant(24 * l2, 709);
    assert(1 <= month <= 12);
    let day: int = l2 - (709 * month) / 24;
    // the encoder's month prefix undoes the decoder's month division
    assert(30 * month - (month - 1) / 2 - (709 * month) / 24 == 1) by {
        lemma_div_by_constant(709 * month, 24);
        lemma_div_by_constant(month - 1, 2);
    };
    let y: int = 30 * n + j - 30;
    assert(y >= 1);
    // the encoder's year term splits into whole cycles plus the cycle position
    let q30: int = (11 * j + 3) / 30;
    assert((11 * y + 3) / 30 == 11 * (n - 1) + q30) by {
        lemma_div_by_constant(11 * j + 3, 30);
        let r: int = 11 * j + 3 - 30 * q30;
        assert(11 * y + 3 == (11 * (n - 1) + q30) * 30 + r);
        vstd::arithmetic::div_mod::lemma_fundamental_div_mod_converse(
            11 * y + 3,
            30,
            11 * (n - 1) + q30,
            r,
        );
    };
    assert(tdiv(11 * y + 3, 30) == (11 * y + 3) / 30);
    assert(tdiv(month - 1, 2) == (month - 1) / 2);
    assert(spec_hijri_to_julian(y, month, day) == s);
}

/// Round trip on dates: a canonical tabular Hijri date, encoded to its day
/// count and decoded again, comes back unchanged (year, month and day).
pub proof fn lemma_hijri_round_trip(y: int, m: int, d: int)
    requires
        valid_hijri_date(y, m, d),
        spec_hijri_to_julian(y, m, d) <= 16_000_000,
    ensures
        spec_julian_to_hijri(spec_hijri_to_julian(y, m, d)) == (y, m, d),
{
    let n: int = (y + 29) / 30;
    lemma_div_by_constant(y + 29, 30);
    let j: int = y - 30 * n + 30;
    assert(1 <= j <= 30);
    assert(n >= 1);
    let q30: int = (11 * j + 3) / 30;
    lemma_div_by_constant(11 * j + 3, 30);
    assert(0 <= q30 <= 11);
    // the encoder's year term splits into whole cycles plus the cycle position
    assert((11 * y + 3) / 30 == 11 * (n - 1) + q30) by {
        let r: int = 11 * j + 3 - 30 * q30;
        assert(11 * y + 3 == (11 * (n - 1) + q30) * 30 + r);
        vstd::arithmetic::div_mod::lemma_fundamental_div_mod_converse(
            11 * y + 3,
            30,
            11 * (n - 1) + q30,
            r,
        );
    };
    assert(tdiv(11 * y + 3, 30) == (11 * y + 3) / 30);
    assert(tdiv(m - 1, 2) == (m - 1) / 2);
    lemma_div_by_constant(m - 1, 2);
    // the day offset within the year, and its bound from date validity
    let o: int = 30 * m - (m - 1) / 2 + d - 30;
    // a year is long exactly when its cycle position is
    assert(hijri_leap_year(y) == hijri_leap_year(j)) by {
        assert(11 * y + 14 == 30 * (11 * (n - 1)) + (11 * j + 14));
        vstd::arithmetic::div_mod::lemma_mod_multiples_vanish(11 * (n - 1), 11 * j + 14, 30);
    };
    assert(1 <= o <= 354 + if hijri_leap_year(j) {
        1int
    } else {
        0int
    });
    let g: int = q30 + 354 * j + o + 30;
    let s: int = spec_hijri_to_julian(y, m, d);
    assert(s == 10631 * (n - 1) + g + 1948055);
    assert(385 <= g <= 11015);
    let l0: int = s - 1937808;
    // the decoder recovers the cycle count
    assert((l0 - 1) / 10631 == n) by {
        assert(l0 - 1 == n * 10631 + (g - 385));
        vstd::arithmetic::div_mod::lemma_fundamental_div_mod_converse(l0 - 1, 10631, n, g - 385);
    };
    let l1: int = l0 - 10631 * n + 354;
    assert(l1 == g - 30);
    // the decoder recovers the year within the cycle
    assert(hijri_cycle_year(l1) == j) by {
        if l1 <= 5669 {
            assert(17719 * j <= 50 * l1 < 17719 * (j + 1));
            vstd::arithmetic::div_mod::lemma_fundamental_div_mod_converse(
                50 * l1,
                17719,
                j,
                50 * l1 - 17719 * j,
            );
        } else {
            assert(15238 * j <= 43 * l1 < 15238 * (j + 1));
            vstd::arithmetic::div_mod::lemma_fundamental_div_mod_converse(
                43 * l1,
                15238,
                j,
                43 * l1 - 15238 * j,
            );
        }
    };
    // the decoder's cumulative-days fraction equals the encoder's per-year term
    let cum: int = hijri_cycle_days(j);
    assert(cum == 354 * j + q30) by {
        if j <= 15 {
            lemma_div_by_constant(17719 * j, 50);
        } else {
            lemma_div_by_constant(15238 * j, 43);
        }
    };
    let l2: int = l1 - cum + 29;
    assert(l2 == o + 29);
    // the decoder recovers month and day
    assert((24 * l2) / 709 == m) by {
        assert(709 * m <= 24 * l2 < 709 * (m + 1));
        vstd::arithmetic::div_mod::lemma_fundamental_div_mod_converse(
            24 * l2,
            709,
            m,
            24 * l2 - 709 * m,
        );
    };
    assert(l2 - (709 * m) / 24 == d) by {
        lemma_div_by_constant(709 * m, 24);
        assert(30 * m - (m - 1) / 2 - (709 * m) / 24 == 1);
    };
}

/// On which dates the encoder applies the Gregorian-reform century
/// correction: strictly after 1582-10-15.  (The reform day itself is still
/// encoded by the Julian-calendar rule, a quirk of the strict `>` in the
/// cutover test that is kept as it is.)
pub open spec fn after_gregorian_reform(y: int, m: int, d: int) -> bool {
    ||| y > 1582
    ||| (y == 1582 && m > 10)
    ||| (y == 1582 && m == 10 && d > 15)
}

/// Round trip through the day count: a valid calendar date strictly after
/// the Gregorian reform, encoded and then decoded, comes back unchanged.
/// The two functions speak of day counts four days apart — the decoder
/// serves the tabular Hijri count, which sits five days below its `z`,
/// while the truncated astronomical count sits only one below — so the
/// encoded count is realigned by four days before decoding.  Without that
/// shift the pair is inverse for no date at all.
pub proof fn lemma_gregorian_round_trip(y0: int, m0: int, d: int)
    requires
        crate::time::valid_date(y0, m0, d),
        after_gregorian_reform(y0, m0, d),
    ensures
        spec_julian_to_gregorian(spec_gregorian_to_julian(y0, m0, d) - 4) == (y0, m0, d),
{
    let y: int = if m0 <= 2 {
        y0 - 1
    } else {
        y0
    };
    let m: int = if m0 <= 2 {
        m0 + 12
    } else {
        m0
    };
    lemma_div_by_constant(y, 100);
    let a: int = y / 100;
    assert(15 <= a <= 99);
    lemma_div_by_constant(a, 4);
    let b: int = 2 - a + a / 4;
    assert(tdiv(a, 4) == a / 4);
    let p: int = 1461 * (y + 4716);
    lemma_div_by_constant(p, 4);
    lemma_div_by_constant(153 * (m + 1), 5);
    let t: int = (153 * (m + 1)) / 5;
    assert(122 <= t <= 459);
    let x0: int = p / 4 + t + d;
    let x: int = x0 + b;
    assert(x >= 1525);
    assert(spec_gregorian_to_julian(y0, m0, d) == x - 1525);
    let z: int = x - 1525 - 4 + 5;
    assert(z >= 2299161);
    let alpha: int = (4 * z - 7468865) / 146097;
    // the century term of the decoder undoes the encoder's reform correction
    assert(alpha == a - 4) by {
        assert(146097 * (a - 4) <= 4 * z - 7468865 < 146097 * (a - 3)) by {
            assert(p % 4 == (y + 4716) % 4) by {
                assert(p == 4 * (365 * (y + 4716)) + (y + 4716));
                vstd::arithmetic::div_mod::lemma_mod_multiples_vanish(
                    365 * (y + 4716),
                    y + 4716,
                    4,
                );
            };
            vstd::arithmetic::div_mod::lemma_fundamental_div_mod(p, 4);
        };
        vstd::arithmetic::div_mod::lemma_fundamental_div_mod_converse(
            4 * z - 7468865,
            146097,
            a - 4,
            4 * z - 7468865 - 146097 * (a - 4),
        );
    };
    assert(alpha >= 11);
    assert(tdiv(alpha, 4) == alpha / 4);
    assert((a - 4) / 4 == a / 4 - 1) by {
        vstd::arithmetic::div_mod::lemma_fundamental_div_mod_converse(
            a - 4,
            4,
            a / 4 - 1,
            a - 4 - 4 * (a / 4 - 1),
        );
    };
    let aa: int = z + 1 + alpha - tdiv(alpha, 4);
    let bb: int = aa + 1524;
    assert(bb == x0);
    // the decoder recovers the shifted year
    let c: int = (20 * bb - 2442) / 7305;
    assert(c == y + 4716) by {
        assert(7305 * (y + 4716) <= 20 * bb - 2442 < 7305 * (y + 4717)) by {
            assert(p % 4 == (y + 4716) % 4) by {
                assert(p == 4 * (365 * (y + 4716)) + (y + 4716));
                vstd::arithmetic::div_mod::lemma_mod_multiples_vanish(
                    365 * (y + 4716),
                    y + 4716,
                    4,
                );
            };
            vstd::arithmetic::div_mod::lemma_fundamental_div_mod(p, 4);
            assert(m == 14 && d >= 29 ==> (y + 4716) % 4 == 3) by {
                if m == 14 && d >= 29 {
                    assert(crate::time::is_leap_year(y0));
                    assert(y0 % 4 == 0);
                    assert((y + 4716) % 4 == (y0 + 4715) % 4);
                    vstd::arithmetic::div_mod::lemma_mod_adds(y0, 4715, 4);
                }
            };
        };
        vstd::arithmetic::div_mod::lemma_fundamental_div_mod_converse(
            20 * bb - 2442,
            7305,
            y + 4716,
            20 * bb - 2442 - 7305 * (y + 4716),
        );
    };
    // the decoder recovers the day offset of the year
    let dd: int = (1461 * c) / 4;
    assert(dd == p / 4);
    assert(bb - dd == t + d);
    // the decoder recovers the shifted month
    let e: int = (10000 * (bb - dd)) / 306001;
    assert(e == m + 1) by {
        assert(306001 * (m + 1) <= 10000 * (t + d) < 306001 * (m + 2));
        vstd::arithmetic::div_mod::lemma_fundamental_div_mod_converse(
            10000 * (bb - dd),
            306001,
            m + 1,
            10000 * (bb - dd) - 306001 * (m + 1),
        );
    };
    // and the day
    assert((306001 * e) / 10000 == t) by {
        assert(10000 * t <= 306001 * (m + 1) < 10000 * (t + 1));
        vstd::arithmetic::div_mod::lemma_fundamental_div_mod_converse(
            306001 * e,
            10000,
            t,
            306001 * e - 10000 * t,
        );
    };
}

/// For any date the library's `Date` type accepts, the tabular Hijri day
/// count stays in a small range.
pub proof fn lemma_hijri_encode_range(y: int, m: int, d: int)
    requires
        crate::time::valid_date(y, m, d),
    ensures
        -1_600_000 <= spec_hijri_to_julian(y, m, d) <= 5_500_000,
{
    lemma_div_by_constant(11 * y + 3, 30);
    lemma_div_by_constant(-(11 * y + 3), 30);
    lemma_div_by_constant(m - 1, 2);
}

/// For any date the library's `Date` type accepts, the encoded day count
/// stays in a small range.
pub proof fn lemma_gregorian_encode_range(y0: int, m0: int, d: int)
    requires
        crate::time::valid_date(y0, m0, d),
    ensures
        -2_000_000 <= spec_gregorian_to_julian(y0, m0, d) <= 5_400_000,
{
    let y: int = if m0 <= 2 {
        y0 - 1
    } else {
        y0
    };
    let m: int = if m0 <= 2 {
        m0 + 12
    } else {
        m0
    };
    lemma_div_by_constant(y, 100);
    let a: int = y / 100;
    lemma_div_by_constant(a, 4);
    lemma_div_by_constant(-a, 4);
    lemma_div_by_constant(1461 * (y + 4716), 4);
    lemma_div_by_constant(153 * (m + 1), 5);
}

/// Characterizes Euclidean division by a positive constant: the quotient is
/// the unique q with q*d <= x < q*d + d.
proof fn lemma_div_by_constant(x: int, d: int)
    requires
        d > 0,
    ensures
        d * (x / d) <= x < d * (x / d) + d,
{
    vstd::arithmetic::div_mod::lemma_fundamental_div_mod(x, d);
    vstd::arithmetic::div_mod::lemma_mod_division_less_than_divisor(x, d);
}

} // verus!
