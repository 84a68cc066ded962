pub mod method;
pub mod prayer;
pub mod times;

pub use method::Method;
pub use prayer::Prayer;
pub use times::PrayerTimes;
