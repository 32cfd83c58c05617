//! Verified core of a small web calculator: it turns raw form submissions
//! into positive integers, reduces them to their greatest common divisor,
//! and renders the outcome as an HTTP status and body.

pub mod extract;
pub mod gcd;
pub mod numbers;
pub mod pipeline;
pub mod present;
