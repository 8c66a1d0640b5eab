//! Analysis of musical intervals given as frequency ratios: reduction to
//! lowest terms, prime factors and tuning limit, the names of just
//! intervals, and the scan for the note of a scale that lies nearest to a
//! pitch.
//!
//! The library works on whole numbers. Sizes in cents are left to its
//! callers, who measure and hand in what the scan compares.
pub mod decimal;
pub mod divisibility;
pub mod interval;
pub mod limit;
pub mod names;
pub mod prime_factors;
pub mod search;
pub mod table;

pub use interval::Interval;
pub use limit::largest_prime_factor;
pub use prime_factors::{IntPower, PrimeFactors};
pub use search::NoteSearch;
pub use table::{table_place, TablePlace};
