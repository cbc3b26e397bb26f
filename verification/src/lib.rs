//! Account, configuration and launch logic of a multi-account launcher for
//! Diablo II: Resurrected, with its contracts.
use vstd::prelude::*;

pub mod account;
pub mod browser;
pub mod channel_a;
pub mod clock;
pub mod config;
pub mod crypto;
pub mod error;
pub mod json;
pub mod json_text;
pub mod launch;
pub mod ocr;
pub mod system;
pub mod text;
pub mod utils;

verus! {
}
