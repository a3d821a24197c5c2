//! Application configuration constants.

use vstd::prelude::*;

verus! {

/// Maximum number of tasks allowed in the Actual list.
pub const MAX_ACTUAL_TASKS: usize = 6;

/// Local port on which the OAuth redirect is received.
pub const OAUTH_REDIRECT_PORT: u16 = 8085;

/// OAuth scope requested from the cloud provider.
pub const OAUTH_SCOPES: &'static str = "https://www.googleapis.com/auth/drive";

/// Cloud folder used when the user has not chosen one.
pub const DEFAULT_DRIVE_FOLDER_ID: &'static str = "1F0qYeAVU_7H73kX9uz-1ZF3i2KS_V-mk";

/// Height of the reminder bar, in logical pixels.
pub const BAR_HEIGHT: i32 = 60;

/// Hours of the day (24h clock) at which the organize prompt may appear.
pub const ORGANIZE_PROMPT_HOURS: [u32; 3] = [8, 13, 18];

/// The organize prompt appears within this many minutes after the hour.
pub const ORGANIZE_PROMPT_WINDOW_MINUTES: u32 = 5;

} // verus!
