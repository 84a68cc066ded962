pub mod error;
pub mod hijri;
pub mod salah;
pub mod time;

pub use error::Error;
