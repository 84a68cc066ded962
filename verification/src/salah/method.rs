use vstd::prelude::*;

verus! {

/// The named calculation authorities.  Each maps to a preset bundle of Fajr
/// and Ishaa angles (or, for some, a fixed post-Maghreb Ishaa interval); the
/// presets are data consumed by the angle-based engine.
#[derive(Debug, Copy, Clone, PartialEq, Eq, Structural)]
pub enum Method {
    /// University of Islamic Sciences, Karachi (UISK)
    /// Ministry of Religious Affairs, Tunisia
    /// France - Angle 18°
    Karachi,
    /// Muslim World League (MWL)
    /// Ministry of Religious Affairs and Awqaf, Algeria
    /// Presidency of Religious Affairs, Turkey
    MuslimWorldLeague,
    /// Egyptian General Authority of Survey (EGAS)
    Egyptian,
    /// Umm al-Qura University, Makkah (UMU)
    UmmAlQura,
    /// Islamic Society of North America (ISNA)
    /// France - Angle 15°
    NorthAmerica,
    /// French Muslims (ex-UOIF)
    French,
    /// Islamic Religious Council of Singapore (MUIS)
    /// Department of Islamic Advancements of Malaysia (JAKIM)
    /// Ministry of Religious Affairs of Indonesia (KEMENAG)
    Singapore,
    /// Spiritual Administration of Muslims of Russia
    Russia,
    /// Fixed Ishaa Time Interval, 90min
    FixedInterval,
}

} // verus!
