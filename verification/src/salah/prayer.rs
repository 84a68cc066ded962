use vstd::prelude::*;
use vstd::string::StringExecFns;

verus! {

/// The five obligatory prayers, sunrise, and the marker for the following
/// day's Fajr used when an interval straddles midnight.
#[derive(Debug, Copy, Clone, PartialEq, Eq, Structural)]
pub enum Prayer {
    Fajr,
    Sherook,
    Dohr,
    Asr,
    Maghreb,
    Ishaa,
    FajrTomorrow,
}

/// The display name of a prayer; the noon prayer is called Jumua on Fridays.
pub open spec fn spec_prayer_name(p: Prayer, friday: bool) -> Seq<char> {
    match p {
        Prayer::Fajr => "Fajr"@,
        Prayer::Sherook => "Sherook"@,
        Prayer::Dohr => if friday {
            "Jumua"@
        } else {
            "Dohr"@
        },
        Prayer::Asr => "Asr"@,
        Prayer::Maghreb => "Maghreb"@,
        Prayer::Ishaa => "Ishaa"@,
        Prayer::FajrTomorrow => "Fajr"@,
    }
}

impl Prayer {
    /// The prayer's display name.  Whether today is a Friday is passed in by
    /// the caller, which owns the clock.
    pub fn name(&self, friday: bool) -> (r: String)
        ensures
            r@ == spec_prayer_name(*self, friday),
    {
        match self {
            Prayer::Fajr => String::from_str("Fajr"),
            Prayer::Sherook => String::from_str("Sherook"),
            Prayer::Dohr => {
                if friday {
                    String::from_str("Jumua")
                } else {
                    String::from_str("Dohr")
                }
            },
            Prayer::Asr => String::from_str("Asr"),
            Prayer::Maghreb => String::from_str("Maghreb"),
            Prayer::Ishaa => String::from_str("Ishaa"),
            Prayer::FajrTomorrow => String::from_str("Fajr"),
        }
    }
}

} // verus!
