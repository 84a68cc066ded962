use vstd::prelude::*;

use crate::hijri::cal::{gregorian_to_julian, spec_gregorian_to_julian};
use crate::salah::prayer::Prayer;
use crate::time::{before, spec_seconds_of_day, DateTime};

verus! {

/// Is `t` inside the half-open interval `[lo, hi)` of the calendar order?
pub open spec fn in_range(lo: DateTime, hi: DateTime, t: DateTime) -> bool {
    !before(t, lo) && before(t, hi)
}

/// Seconds separating two instants, counted through the day-count difference
/// of their calendar dates.
pub open spec fn spec_duration_seconds(from: DateTime, to: DateTime) -> int {
    86400 * (spec_gregorian_to_julian(to.date.year as int, to.date.month as int, to.date.day as int)
        - spec_gregorian_to_julian(
        from.date.year as int,
        from.date.month as int,
        from.date.day as int,
    )) + spec_seconds_of_day(to) - spec_seconds_of_day(from)
}

/// One day's computed prayer schedule: the instant it answers questions for,
/// and the absolute times the engine computed for that day at one location
/// under one configuration.  Created once and then only read.
#[derive(Debug, Copy, Clone, PartialEq, Eq, Structural)]
pub struct PrayerTimes {
    /// The instant the state machine answers questions for.
    pub time: DateTime,
    pub dohr: DateTime,
    pub asr: DateTime,
    pub maghreb: DateTime,
    pub ishaa: DateTime,
    pub fajr: DateTime,
    pub fajr_tomorrow: DateTime,
    pub sherook: DateTime,
    pub first_third_of_night: DateTime,
    pub midnight: DateTime,
    pub last_third_of_night: DateTime,
}

impl PrayerTimes {
    /// Every stored instant is a valid date with a valid time of day.
    pub open spec fn times_wf(self) -> bool {
        &&& self.time.wf()
        &&& self.dohr.wf()
        &&& self.asr.wf()
        &&& self.maghreb.wf()
        &&& self.ishaa.wf()
        &&& self.fajr.wf()
        &&& self.fajr_tomorrow.wf()
        &&& self.sherook.wf()
        &&& self.first_third_of_night.wf()
        &&& self.midnight.wf()
        &&& self.last_third_of_night.wf()
    }

    /// The six prayer times of the day are strictly increasing, ending at
    /// the following day's Fajr.
    pub open spec fn ordered(self) -> bool {
        &&& before(self.fajr, self.sherook)
        &&& before(self.sherook, self.dohr)
        &&& before(self.dohr, self.asr)
        &&& before(self.asr, self.maghreb)
        &&& before(self.maghreb, self.ishaa)
        &&& before(self.ishaa, self.fajr_tomorrow)
    }

    /// Assembles a schedule from an instant and the computed times.
    pub fn new(
        time: DateTime,
        dohr: DateTime,
        asr: DateTime,
        maghreb: DateTime,
        ishaa: DateTime,
        fajr: DateTime,
        fajr_tomorrow: DateTime,
        sherook: DateTime,
        first_third_of_night: DateTime,
        midnight: DateTime,
        last_third_of_night: DateTime,
    ) -> (r: Self)
        ensures
            r == (PrayerTimes {
                time,
                dohr,
                asr,
                maghreb,
                ishaa,
                fajr,
                fajr_tomorrow,
                sherook,
                first_third_of_night,
                midnight,
                last_third_of_night,
            }),
    {
        Self {
            time,
            dohr,
            asr,
            maghreb,
            ishaa,
            fajr,
            fajr_tomorrow,
            sherook,
            first_third_of_night,
            midnight,
            last_third_of_night,
        }
    }

    /// The stored time of one prayer.
    pub open spec fn spec_time(self, prayer: Prayer) -> DateTime {
        match prayer {
            Prayer::Fajr => self.fajr,
            Prayer::Sherook => self.sherook,
            Prayer::Dohr => self.dohr,
            Prayer::Asr => self.asr,
            Prayer::Maghreb => self.maghreb,
            Prayer::Ishaa => self.ishaa,
            Prayer::FajrTomorrow => self.fajr_tomorrow,
        }
    }

    /// The prayer in effect at instant `t`: the day is split into six
    /// half-open intervals, later intervals taking precedence, and an
    /// instant before the day's Fajr belongs to the previous night's Ishaa.
    pub open spec fn spec_current_at(self, t: DateTime) -> Option<Prayer> {
        if in_range(self.ishaa, self.fajr_tomorrow, t) {
            Some(Prayer::Ishaa)
        } else if in_range(self.maghreb, self.ishaa, t) {
            Some(Prayer::Maghreb)
        } else if in_range(self.asr, self.maghreb, t) {
            Some(Prayer::Asr)
        } else if in_range(self.dohr, self.asr, t) {
            Some(Prayer::Dohr)
        } else if in_range(self.sherook, self.dohr, t) {
            Some(Prayer::Sherook)
        } else if in_range(self.fajr, self.sherook, t) {
            Some(Prayer::Fajr)
        } else if before(t, self.fajr) {
            Some(Prayer::Ishaa)
        } else {
            None
        }
    }

    /// The instant lies in the pre-dawn tail: its time of day has not yet
    /// passed tomorrow's Fajr time of day.
    pub open spec fn spec_after_midnight(self) -> bool {
        spec_seconds_of_day(self.time) <= spec_seconds_of_day(self.fajr_tomorrow)
    }

    /// The prayer after the one in effect; from Ishaa the successor is
    /// today's Fajr when the instant is past midnight, else tomorrow's.
    pub open spec fn spec_next(self) -> Prayer {
        match self.spec_current_at(self.time) {
            Some(Prayer::Fajr) => Prayer::Sherook,
            Some(Prayer::Sherook) => Prayer::Dohr,
            Some(Prayer::Dohr) => Prayer::Asr,
            Some(Prayer::Asr) => Prayer::Maghreb,
            Some(Prayer::Maghreb) => Prayer::Ishaa,
            Some(Prayer::Ishaa) => if self.spec_after_midnight() {
                Prayer::Fajr
            } else {
                Prayer::FajrTomorrow
            },
            Some(Prayer::FajrTomorrow) => Prayer::Fajr,
            None => Prayer::Fajr,
        }
    }

    /// Seconds from the instant to the next prayer; a successor on the
    /// following calendar day is brought back by one day, as its stored
    /// date is already one day ahead.
    pub open spec fn spec_remaining_seconds(self) -> int {
        let base: int = spec_duration_seconds(self.time, self.spec_time(self.spec_next()));
        if self.spec_next() == Prayer::FajrTomorrow && self.spec_after_midnight() {
            base - 86400
        } else {
            base
        }
    }

    /// The remaining time as whole hours and rounded minutes; a negative
    /// span collapses to zero.
    pub open spec fn spec_time_remaining(self) -> (int, int) {
        let s: int = self.spec_remaining_seconds();
        if s < 0 {
            (0, 0)
        } else {
            (s / 3600, ((s % 3600) + 30) / 60)
        }
    }

    fn in_range_exec(lo: &DateTime, hi: &DateTime, t: &DateTime) -> (r: bool)
        ensures
            r == in_range(*lo, *hi, *t),
    {
        !t.lt(lo) && t.lt(hi)
    }

    /// The prayer in effect at a given instant, if any interval contains it.
    pub fn current_time(&self, time: DateTime) -> (r: Option<Prayer>)
        ensures
            r == self.spec_current_at(time),
    {
        if Self::in_range_exec(&self.ishaa, &self.fajr_tomorrow, &time) {
            Some(Prayer::Ishaa)
        } else if Self::in_range_exec(&self.maghreb, &self.ishaa, &time) {
            Some(Prayer::Maghreb)
        } else if Self::in_range_exec(&self.asr, &self.maghreb, &time) {
            Some(Prayer::Asr)
        } else if Self::in_range_exec(&self.dohr, &self.asr, &time) {
            Some(Prayer::Dohr)
        } else if Self::in_range_exec(&self.sherook, &self.dohr, &time) {
            Some(Prayer::Sherook)
        } else if Self::in_range_exec(&self.fajr, &self.sherook, &time) {
            Some(Prayer::Fajr)
        } else if time.lt(&self.fajr) {
            Some(Prayer::Ishaa)
        } else {
            None
        }
    }

    /// The prayer in effect at the schedule's instant.  The instant must lie
    /// in one of the intervals (it does whenever it is before tomorrow's
    /// Fajr of an ordered schedule).
    pub fn current(&self) -> (r: Prayer)
        requires
            self.spec_current_at(self.time) is Some,
        ensures
            Some(r) == self.spec_current_at(self.time),
    {
        self.current_time(self.time).unwrap()
    }

    fn is_after_midnight(&self) -> (r: bool)
        ensures
            r == self.spec_after_midnight(),
    {
        let a: u64 = self.time.hour as u64 * 3600 + self.time.minute as u64 * 60
            + self.time.second as u64;
        let b: u64 = self.fajr_tomorrow.hour as u64 * 3600 + self.fajr_tomorrow.minute as u64 * 60
            + self.fajr_tomorrow.second as u64;
        a <= b
    }

    /// The next prayer after the one in effect.
    pub fn next(&self) -> (r: Prayer)
        requires
            self.spec_current_at(self.time) is Some,
        ensures
            r == self.spec_next(),
    {
        match self.current() {
            Prayer::Fajr => Prayer::Sherook,
            Prayer::Sherook => Prayer::Dohr,
            Prayer::Dohr => Prayer::Asr,
            Prayer::Asr => Prayer::Maghreb,
            Prayer::Maghreb => Prayer::Ishaa,
            Prayer::Ishaa => {
                if self.is_after_midnight() {
                    Prayer::Fajr
                } else {
                    Prayer::FajrTomorrow
                }
            },
            Prayer::FajrTomorrow => Prayer::Fajr,
        }
    }

    /// The stored time of one prayer.
    pub fn time(&self, prayer: Prayer) -> (r: DateTime)
        ensures
            r == self.spec_time(prayer),
    {
        match prayer {
            Prayer::Fajr => self.fajr,
            Prayer::Sherook => self.sherook,
            Prayer::Dohr => self.dohr,
            Prayer::Asr => self.asr,
            Prayer::Maghreb => self.maghreb,
            Prayer::Ishaa => self.ishaa,
            Prayer::FajrTomorrow => self.fajr_tomorrow,
        }
    }

    /// Hours and minutes remaining until the next prayer.
    pub fn time_remaining(&self) -> (r: (u32, u32))
        requires
            self.spec_current_at(self.time) is Some,
            self.times_wf(),
        ensures
            (r.0 as int, r.1 as int) == self.spec_time_remaining(),
    {
        let next = self.next();
        let nt = self.time(next);
        proof {
            crate::hijri::cal::lemma_gregorian_encode_range(
                nt.date.year as int,
                nt.date.month as int,
                nt.date.day as int,
            );
            crate::hijri::cal::lemma_gregorian_encode_range(
                self.time.date.year as int,
                self.time.date.month as int,
                self.time.date.day as int,
            );
        }
        let jd_to: i64 = gregorian_to_julian(&nt.date);
        let jd_from: i64 = gregorian_to_julian(&self.time.date);
        let mut s: i64 = 86400 * (jd_to - jd_from) + nt.seconds_of_day() as i64
            - self.time.seconds_of_day() as i64;
        if next == Prayer::FajrTomorrow && self.is_after_midnight() {
            s = s - 86400;
        }
        if s < 0 {
            (0, 0)
        } else {
            let ss: u64 = s as u64;
            ((ss / 3600) as u32, ((ss % 3600 + 30) / 60) as u32)
        }
    }
}

/// Monotonicity: in an ordered schedule the times are strictly increasing,
/// `Fajr < Sherook < Dohr < Asr < Maghreb < Ishaa < FajrTomorrow`, so every
/// prayer also strictly precedes every later one.
pub proof fn lemma_schedule_monotone(s: PrayerTimes)
    requires
        s.ordered(),
    ensures
        before(s.fajr, s.sherook),
        before(s.sherook, s.dohr),
        before(s.dohr, s.asr),
        before(s.asr, s.maghreb),
        before(s.maghreb, s.ishaa),
        before(s.ishaa, s.fajr_tomorrow),
        forall|p: Prayer, q: Prayer|
            prayer_index(p) < prayer_index(q) ==> #[trigger] before(
                s.spec_time(p),
                s.spec_time(q),
            ),
{
}

/// The position of a prayer in the day's order.
pub open spec fn prayer_index(p: Prayer) -> int {
    match p {
        Prayer::Fajr => 0,
        Prayer::Sherook => 1,
        Prayer::Dohr => 2,
        Prayer::Asr => 3,
        Prayer::Maghreb => 4,
        Prayer::Ishaa => 5,
        Prayer::FajrTomorrow => 6,
    }
}

/// Of an ordered schedule (`Fajr < Sherook < Dohr < Asr < Maghreb < Ishaa <
/// FajrTomorrow`) the six half-open intervals tile the span from Fajr to
/// tomorrow's Fajr; an instant in an interval is answered with that
/// interval's prayer, an instant before the day's Fajr still belongs to the
/// previous night's Ishaa, and an instant from tomorrow's Fajr on belongs to
/// no interval.  In particular the instant one second before Fajr answers
/// Ishaa and the instant one second after Fajr answers Fajr.
pub proof fn lemma_current_partition(s: PrayerTimes, t: DateTime)
    requires
        s.ordered(),
    ensures
        before(t, s.fajr) ==> s.spec_current_at(t) == Some(Prayer::Ishaa),
        in_range(s.fajr, s.sherook, t) ==> s.spec_current_at(t) == Some(Prayer::Fajr),
        in_range(s.sherook, s.dohr, t) ==> s.spec_current_at(t) == Some(Prayer::Sherook),
        in_range(s.dohr, s.asr, t) ==> s.spec_current_at(t) == Some(Prayer::Dohr),
        in_range(s.asr, s.maghreb, t) ==> s.spec_current_at(t) == Some(Prayer::Asr),
        in_range(s.maghreb, s.ishaa, t) ==> s.spec_current_at(t) == Some(Prayer::Maghreb),
        in_range(s.ishaa, s.fajr_tomorrow, t) ==> s.spec_current_at(t) == Some(Prayer::Ishaa),
        s.spec_current_at(t) is Some <==> before(t, s.fajr_tomorrow),
{
}

} // verus!
