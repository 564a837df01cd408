//! Backoff strategies: from an attempt count and a reference instant to the
//! earliest instant at which the next attempt may start.

pub mod constant;
pub mod exponential;
pub mod linear;

pub use constant::ConstantBackoff;
pub use exponential::ExponentialBackoff;
pub use linear::LinearBackoff;
