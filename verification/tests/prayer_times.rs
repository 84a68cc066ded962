use islam::salah::{Prayer, PrayerTimes};
use islam::time::{date, Date, DateTime};

fn at(d: Date, hour: u32, minute: u32, second: u32) -> DateTime {
    DateTime::new(d, hour, minute, second).unwrap()
}

/// The computed schedule for Central Jakarta on 2025-03-12 under the
/// Singapore method and the Shafi madhab, as the angle engine produces it.
fn jakarta_schedule(instant: DateTime) -> PrayerTimes {
    let day = date(2025, 3, 12).unwrap();
    let next_day = date(2025, 3, 13).unwrap();
    PrayerTimes::new(
        instant,
        at(day, 12, 4, 0),   // dohr
        at(day, 15, 10, 0),  // asr
        at(day, 18, 9, 0),   // maghreb
        at(day, 19, 18, 0),  // ishaa
        at(day, 4, 42, 0),   // fajr
        at(next_day, 4, 42, 0),  // fajr tomorrow
        at(day, 5, 59, 0),   // sherook
        at(day, 21, 41, 0),  // first third of night
        at(day, 23, 25, 0),  // midnight point
        at(next_day, 1, 11, 0),  // last third of night
    )
}

fn jakarta_at(hour: u32, minute: u32, second: u32) -> PrayerTimes {
    jakarta_schedule(at(date(2025, 3, 12).unwrap(), hour, minute, second))
}

#[test]
fn current_prayers() {
    let prayer_times = jakarta_at(0, 0, 0);

    assert_eq!(
        prayer_times.current_time(at(date(2025, 3, 12).unwrap(), 4, 42, 0)),
        Some(Prayer::Fajr)
    );
    assert_eq!(
        prayer_times.current_time(at(date(2025, 3, 12).unwrap(), 5, 59, 0)),
        Some(Prayer::Sherook)
    );
    assert_eq!(
        prayer_times.current_time(at(date(2025, 3, 12).unwrap(), 12, 4, 0)),
        Some(Prayer::Dohr)
    );
    assert_eq!(
        prayer_times.current_time(at(date(2025, 3, 12).unwrap(), 15, 10, 0)),
        Some(Prayer::Asr)
    );
    assert_eq!(
        prayer_times.current_time(at(date(2025, 3, 12).unwrap(), 18, 9, 0)),
        Some(Prayer::Maghreb)
    );
    assert_eq!(
        prayer_times.current_time(at(date(2025, 3, 12).unwrap(), 19, 18, 0)),
        Some(Prayer::Ishaa)
    );
    // After midnight and before Fajr the previous night's Ishaa is current.
    assert_eq!(
        prayer_times.current_time(at(date(2025, 3, 12).unwrap(), 4, 41, 0)),
        Some(Prayer::Ishaa)
    );
}

#[test]
fn next_prayers() {
    // Before midnight
    let prayer_times = jakarta_at(20, 0, 0);
    assert_eq!(prayer_times.next(), Prayer::FajrTomorrow);

    // After midnight
    let prayer_times = jakarta_at(1, 0, 0);
    assert_eq!(prayer_times.next(), Prayer::Fajr);
}

#[test]
fn remaining_time() {
    // Right after Fajr
    let prayer_times = jakarta_at(4, 42, 0);
    assert_eq!(prayer_times.current(), Prayer::Fajr);
    assert_eq!(prayer_times.time_remaining(), (1, 17));

    // 2 minutes before Sherook
    let prayer_times = jakarta_at(5, 57, 0);
    assert_eq!(prayer_times.current(), Prayer::Fajr);
    assert_eq!(prayer_times.time_remaining(), (0, 2));

    // 2 minutes before Asr
    let prayer_times = jakarta_at(15, 8, 0);
    assert_eq!(prayer_times.current(), Prayer::Dohr);
    assert_eq!(prayer_times.time_remaining(), (0, 2));

    // 2 minutes before Maghreb
    let prayer_times = jakarta_at(18, 7, 0);
    assert_eq!(prayer_times.current(), Prayer::Asr);
    assert_eq!(prayer_times.time_remaining(), (0, 2));

    // 2 minutes before Ishaa
    let prayer_times = jakarta_at(19, 16, 0);
    assert_eq!(prayer_times.current(), Prayer::Maghreb);
    assert_eq!(prayer_times.time_remaining(), (0, 2));

    // Current prayer is ishaa (before midnight)
    let prayer_times = jakarta_at(20, 0, 0);
    assert_eq!(prayer_times.current(), Prayer::Ishaa);
    assert_eq!(prayer_times.time_remaining(), (8, 42));

    // Current prayer is ishaa (after midnight)
    let prayer_times = jakarta_at(4, 27, 0);
    assert_eq!(prayer_times.current(), Prayer::Ishaa);
    assert_eq!(prayer_times.time_remaining(), (0, 15));
}

#[test]
fn before_midnight() {
    let prayer_times = jakarta_at(20, 0, 0);
    assert_eq!(prayer_times.current(), Prayer::Ishaa);
    assert_eq!(prayer_times.next(), Prayer::FajrTomorrow);
    assert_eq!(prayer_times.time_remaining(), (8, 42));
}

/// The worked scenario: Central Jakarta (lat -6.10, lon 106.49, UTC+7),
/// Singapore method, Shafi madhab, 2023-08-30.
fn scenario_schedule(instant: DateTime) -> PrayerTimes {
    let day = date(2023, 8, 30).unwrap();
    let next_day = date(2023, 8, 31).unwrap();
    PrayerTimes::new(
        instant,
        at(day, 11, 54, 50),  // dohr
        at(day, 15, 1, 51),   // asr
        at(day, 18, 2, 6),    // maghreb
        at(day, 19, 12, 17),  // ishaa
        at(day, 4, 29, 10),   // fajr
        at(next_day, 4, 29, 10),  // fajr tomorrow
        at(day, 5, 47, 34),   // sherook
        at(day, 21, 31, 0),   // first third of night
        at(day, 23, 15, 38),  // midnight point
        at(next_day, 1, 0, 16),  // last third of night
    )
}

#[test]
fn scenario_schedule_is_ordered() {
    let s = scenario_schedule(at(date(2023, 8, 30).unwrap(), 12, 0, 0));
    assert!(s.fajr.lt(&s.sherook));
    assert!(s.sherook.lt(&s.dohr));
    assert!(s.dohr.lt(&s.asr));
    assert!(s.asr.lt(&s.maghreb));
    assert!(s.maghreb.lt(&s.ishaa));
    assert!(s.ishaa.lt(&s.fajr_tomorrow));
}

#[test]
fn scenario_boundary_around_fajr() {
    let day = date(2023, 8, 30).unwrap();
    let s = scenario_schedule(at(day, 12, 0, 0));
    // One second before Fajr: still the previous night's Ishaa.
    assert_eq!(s.current_time(at(day, 4, 29, 9)), Some(Prayer::Ishaa));
    // One second after Fajr: Fajr.
    assert_eq!(s.current_time(at(day, 4, 29, 11)), Some(Prayer::Fajr));
    // At Fajr exactly: Fajr (the interval is closed on the left).
    assert_eq!(s.current_time(at(day, 4, 29, 10)), Some(Prayer::Fajr));
}

#[test]
fn scenario_two_minutes_to_fajr() {
    // At 04:27, with Fajr at 04:29:10, the current prayer is the previous
    // night's Ishaa and roughly two minutes remain.
    let s = scenario_schedule(at(date(2023, 8, 30).unwrap(), 4, 27, 0));
    assert_eq!(s.current(), Prayer::Ishaa);
    assert_eq!(s.next(), Prayer::Fajr);
    assert_eq!(s.time_remaining(), (0, 2));
}

#[test]
fn prayer_time_lookup() {
    let day = date(2023, 8, 30).unwrap();
    let s = scenario_schedule(at(day, 12, 0, 0));
    assert_eq!(s.time(Prayer::Fajr), at(day, 4, 29, 10));
    assert_eq!(s.time(Prayer::Sherook), at(day, 5, 47, 34));
    assert_eq!(s.time(Prayer::Dohr), at(day, 11, 54, 50));
    assert_eq!(s.time(Prayer::Asr), at(day, 15, 1, 51));
    assert_eq!(s.time(Prayer::Maghreb), at(day, 18, 2, 6));
    assert_eq!(s.time(Prayer::Ishaa), at(day, 19, 12, 17));
    assert_eq!(s.time(Prayer::FajrTomorrow), at(date(2023, 8, 31).unwrap(), 4, 29, 10));
}

#[test]
fn prayer_name() {
    assert_eq!(Prayer::Fajr.name(false), "Fajr");
    assert_eq!(Prayer::Sherook.name(false), "Sherook");
    assert_eq!(Prayer::Dohr.name(false), "Dohr");
    assert_eq!(Prayer::Dohr.name(true), "Jumua");
    assert_eq!(Prayer::Asr.name(false), "Asr");
    assert_eq!(Prayer::Maghreb.name(false), "Maghreb");
    assert_eq!(Prayer::Ishaa.name(false), "Ishaa");
    assert_eq!(Prayer::FajrTomorrow.name(false), "Fajr");
}
