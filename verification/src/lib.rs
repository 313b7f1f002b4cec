use vstd::prelude::*;

pub mod config;
pub mod contact;
pub mod embed;
pub mod logging;
pub mod rate_limit;
pub mod smtp;
pub mod text;
pub mod utils;
pub mod validation;

verus! {

} // verus!
