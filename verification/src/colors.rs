//! Embed colours of the alert channel, as decimal RGB values.
use vstd::prelude::*;

verus! {

/// Critical errors: red (#E74C3C).
pub const CRITICAL: u32 = 15158332;
/// Warnings: yellow (#FFFF00).
pub const WARNING: u32 = 16776960;
/// Information: green (#2ECC71).
pub const INFO: u32 = 3066993;
/// Success: green (#2ECC71).
pub const SUCCESS: u32 = 3066993;

} // verus!
