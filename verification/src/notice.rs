//! What the desktop is told.

use vstd::prelude::*;

verus! {

/// The urgency that asks for attention until it gets it.
pub const URGENCY_CRITICAL: u8 = 2;

/// A desktop notification. The urgency is 0 for low, 1 for normal and 2 for
/// critical. The timeout is in milliseconds, and 0 means until dismissed.
#[derive(Debug, PartialEq, Eq)]
pub struct Notice {
    pub summary: String,
    pub body: String,
    pub urgency: u8,
    pub timeout: i32,
}

/// How long a notification of this urgency stays: a critical one until it is
/// dismissed, any other four seconds.
pub open spec fn timeout_of(urgency: u8) -> i32 {
    if urgency == URGENCY_CRITICAL {
        0
    } else {
        4000
    }
}

/// A notification with the timeout of its urgency.
pub fn notice(summary: &str, body: &str, urgency: u8) -> (out: Notice)
    ensures
        out.summary@ == summary@,
        out.body@ == body@,
        out.urgency == urgency,
        out.timeout == timeout_of(urgency),
{
    Notice {
        summary: summary.to_string(),
        body: body.to_string(),
        urgency,
        timeout: if urgency == URGENCY_CRITICAL {
            0
        } else {
            4000
        },
    }
}

/// A login page is about to open. Stays until dismissed.
pub fn portal_notice() -> (out: Notice)
    ensures
        out.summary@ == "Captive portal"@,
        out.body@ == "Opening login page…"@,
        out.urgency == URGENCY_CRITICAL,
        out.timeout == 0,
{
    notice("Captive portal", "Opening login page…", URGENCY_CRITICAL)
}

/// The login is done and the internet is there.
pub fn cleared_notice() -> (out: Notice)
    ensures
        out.summary@ == "Connected"@,
        out.body@ == "Internet reachable"@,
        out.urgency == 0,
        out.timeout == 4000,
{
    notice("Connected", "Internet reachable", 0)
}

/// Only a critical notification, of urgency 2, stays until it is dismissed.
pub proof fn law_timeout(urgency: u8)
    ensures
        timeout_of(urgency) == 0 <==> urgency == 2,
        urgency != 2 ==> timeout_of(urgency) == 4000,
{
}

} // verus!
