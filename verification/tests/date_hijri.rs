use islam::hijri::{HijriDate, HijriError};
use islam::time::date;

fn hijri_date() -> Result<HijriDate, HijriError> {
    HijriDate::new(1442, 8, 25)
}

#[test]
fn date_hijri() -> Result<(), HijriError> {
    let hijri_date = hijri_date()?;
    assert_eq!(hijri_date.day, 25);
    assert_eq!(hijri_date.month, 8);
    assert_eq!(hijri_date.year, 1442);
    Ok(())
}

#[test]
fn date_tomorrow() -> Result<(), HijriError> {
    let hijri_date = hijri_date()?;
    let tomorrow = hijri_date.next_date()?;
    assert_eq!(tomorrow.day, 26);
    assert_eq!(tomorrow.month, 8);
    assert_eq!(tomorrow.year, 1442);
    Ok(())
}

#[test]
fn date_to_gregorian() -> Result<(), HijriError> {
    let hijri_date = HijriDate::new(1442, 8, 25)?;
    let gregorian = hijri_date.to_gregorian()?;
    assert_eq!(gregorian, date(2021, 4, 13).unwrap());
    Ok(())
}

#[test]
fn date_from_gregorian() -> Result<(), HijriError> {
    let hijri_from_gregorian = HijriDate::from_gregorian(date(2021, 4, 9).unwrap(), 0);
    assert_eq!(hijri_from_gregorian.day, 25);
    assert_eq!(hijri_from_gregorian.month, 8);
    assert_eq!(hijri_from_gregorian.month_arabic, "شعبان".to_string());
    assert_eq!(hijri_from_gregorian.month_english, "Shaban".to_string());
    assert_eq!(hijri_from_gregorian.year, 1442);
    Ok(())
}

#[test]
fn date_from_gregorian_1() -> Result<(), HijriError> {
    let hijri_from_gregorian = HijriDate::from_gregorian(date(2020, 4, 18).unwrap(), 0);
    assert_eq!(hijri_from_gregorian.day, 23);
    assert_eq!(hijri_from_gregorian.month, 8);
    assert_eq!(hijri_from_gregorian.month_english, "Shaban".to_string());
    assert_eq!(hijri_from_gregorian.year, 1441);
    Ok(())
}

#[test]
fn date_from_julian() -> Result<(), HijriError> {
    let hijri_from_julian = HijriDate::from_julian(2459313, 0);
    assert_eq!(hijri_from_julian.day, 25);
    assert_eq!(hijri_from_julian.month, 8);
    assert_eq!(hijri_from_julian.month_arabic, "شعبان".to_string());
    assert_eq!(hijri_from_julian.month_english, "Shaban".to_string());
    assert_eq!(hijri_from_julian.year, 1442);
    Ok(())
}

#[test]
fn date_min_month() -> Result<(), HijriError> {
    let hijri_date = HijriDate::new(1442, 1, 25)?;
    assert_eq!(hijri_date.month_arabic, "محرم".to_string());
    assert_eq!(hijri_date.month_english, "Moharram".to_string());
    Ok(())
}

#[test]
fn date_max_month() -> Result<(), HijriError> {
    let hijri_date = HijriDate::new(1442, 12, 25)?;
    assert_eq!(hijri_date.month_arabic, "ذو الحجة".to_string());
    assert_eq!(hijri_date.month_english, "Delhijja".to_string());
    Ok(())
}

#[test]
fn date_out_of_index_month() -> Result<(), HijriError> {
    let err = HijriDate::new(1442, 13, 25).unwrap_err().to_string();
    assert_eq!(err, "No such month: 13");

    let err = HijriDate::new(1442, 0, 25).unwrap_err().to_string();
    assert_eq!(err, "No such month: 0");
    Ok(())
}

#[test]
fn date_min_year() -> Result<(), HijriError> {
    let hijri_date = HijriDate::new(1, 1, 1)?;
    assert_eq!(hijri_date.day, 1);
    assert_eq!(hijri_date.month, 1);
    assert_eq!(hijri_date.year, 1);
    assert_eq!(hijri_date.month_arabic, "محرم".to_string());
    assert_eq!(hijri_date.month_english, "Moharram".to_string());
    Ok(())
}

#[test]
fn date_max_year() -> Result<(), HijriError> {
    let hijri_date = HijriDate::new(2000, 1, 1)?;
    assert_eq!(hijri_date.day, 1);
    assert_eq!(hijri_date.month, 1);
    assert_eq!(hijri_date.year, 2000);
    assert_eq!(hijri_date.month_arabic, "محرم".to_string());
    assert_eq!(hijri_date.month_english, "Moharram".to_string());
    Ok(())
}
