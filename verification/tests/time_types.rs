use islam::error::Error;
use islam::hijri::{HijriDate, HijriError};
use islam::salah::Method;
use islam::time::{date, midnight, now, one_sec_before_midnight, today, DateTime};

#[test]
fn date_validation() {
    assert!(date(2021, 4, 9).is_ok());
    assert!(date(2020, 2, 29).is_ok());
    assert_eq!(date(2021, 2, 29).unwrap_err(), Error::InvalidTime);
    assert_eq!(date(1900, 2, 29).unwrap_err(), Error::InvalidTime);
    assert!(date(2000, 2, 29).is_ok());
    assert_eq!(date(2021, 0, 1).unwrap_err(), Error::InvalidTime);
    assert_eq!(date(2021, 13, 1).unwrap_err(), Error::InvalidTime);
    assert_eq!(date(2021, 4, 31).unwrap_err(), Error::InvalidTime);
    assert_eq!(date(10000, 1, 1).unwrap_err(), Error::InvalidTime);
}

#[test]
fn datetime_validation_and_order() {
    let d = date(2021, 4, 9).unwrap();
    let e = date(2021, 4, 10).unwrap();
    assert!(DateTime::new(d, 24, 0, 0).is_err());
    assert!(DateTime::new(d, 0, 60, 0).is_err());
    let a = DateTime::new(d, 23, 59, 59).unwrap();
    let b = DateTime::new(e, 0, 0, 0).unwrap();
    assert!(a.lt(&b));
    assert!(!b.lt(&a));
    assert!(a.le(&b));
    assert!(a.le(&a));
    assert!(!a.lt(&a));
}

#[test]
fn clock_readings_are_in_range() {
    let t = today().unwrap();
    assert!((1..=12).contains(&t.month));
    assert!((1..=31).contains(&t.day));
    let n = now().unwrap();
    assert!(n.hour <= 23 && n.minute <= 59 && n.second <= 59);
    let late = one_sec_before_midnight().unwrap();
    assert_eq!((late.hour, late.minute, late.second), (23, 59, 59));
    let early = midnight().unwrap();
    assert_eq!((early.hour, early.minute, early.second), (0, 0, 0));
    assert_eq!(late.date, early.date);
}

#[test]
fn hijri_today_accepts_corrections() {
    let a = HijriDate::today(-1).unwrap();
    let b = HijriDate::today(1).unwrap();
    assert!((1..=12).contains(&a.month));
    assert!((1..=12).contains(&b.month));
}

#[test]
fn method_presets_are_distinct() {
    assert_eq!(Method::Singapore, Method::Singapore);
    assert_ne!(Method::Singapore, Method::UmmAlQura);
    assert_ne!(Method::MuslimWorldLeague, Method::FixedInterval);
}

#[test]
fn hijri_error_text() {
    assert_eq!(HijriError::InvalidMonth(13).to_string(), "No such month: 13");
    assert_eq!(HijriError::InvalidMonth(0).to_string(), "No such month: 0");
    assert_eq!(
        HijriError::InvalidTime("x".to_string()).to_string(),
        "No such time: x"
    );
}
