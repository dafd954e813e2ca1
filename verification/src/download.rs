//! Downloading and installing `cloudflared`: the size announced by the
//! server, the temporary file name, and when to report progress.

use vstd::prelude::*;
use crate::text::{concat2, parse_unsigned, parse_unsigned_text};

verus! {

/// The size of the download announced by the `Content-Length` header: its
/// value read as a `u64`, or 0 when it is missing or not a number.
pub fn content_length(header: Option<&str>) -> (res: u64)
    ensures
        res == (match header {
            Some(h) => match parse_unsigned(h@, u64::MAX as nat) {
                Some(v) => v,
                None => 0,
            },
            None => 0,
        }),
{
    match header {
        Some(h) => match parse_unsigned_text(h, u64::MAX) {
            Some(v) => v,
            None => 0,
        },
        None => 0,
    }
}

/// The name of the file the download is written to before it is installed.
pub fn temp_file_name(filename: &str) -> (res: String)
    ensures
        res@ == filename@ + ".tmp"@,
{
    concat2(filename, ".tmp")
}

/// The percentage at which the next report is due: five points above the
/// last reported one, held at `u32::MAX` where that sum would not fit.
pub open spec fn progress_threshold(last_percent: u32) -> int {
    if last_percent + 5 <= u32::MAX {
        last_percent + 5
    } else {
        u32::MAX as int
    }
}

/// Whether to report progress: when the percentage has reached the
/// threshold above the last report, or more than 800 ms have passed since it.
pub fn should_report_progress(percent: u32, last_percent: u32, elapsed_ms: u128) -> (res: bool)
    ensures
        res == (percent >= progress_threshold(last_percent) || elapsed_ms > 800),
{
    let threshold: u32 = last_percent.saturating_add(5);
    percent >= threshold || elapsed_ms > 800
}

} // verus!
