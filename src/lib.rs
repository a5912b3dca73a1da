//! Satellite pass prediction: civil time and Julian date arithmetic, the
//! checks and the field parse of two-line orbital element sets, and the
//! search for the next time a satellite rises or sets for an observer.

pub mod calendar;
pub mod elements;
pub mod fields;
pub mod pass;
