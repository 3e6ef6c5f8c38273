//! Request authentication for a small time-logging service: the gateway that
//! decides for every request whether it may reach a handler, the two token
//! strategies behind it (signed claims and stored sessions), credential
//! checks at login, and the calendar helpers that the report pages use.

pub mod calendar;
pub mod claims;
pub mod credentials;
pub mod gateway;
pub mod model;
pub mod session;
pub mod text;
