//! Sleep-inhibition leases: remote callers ask the machine to stay awake,
//! each request attributed to a named reason, and release it when done.
//!
//! The registry decides; the caller that owns the native power request
//! performs the calls that the registry reports as due.
use vstd::prelude::*;

pub mod access;
pub mod order;
pub mod registry;
pub mod request;
pub mod token;
