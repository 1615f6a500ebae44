//! Verified core of a COSMIC panel applet that drives the yt-dlp downloader:
//! the option enums shown in the panel, the reading of yt-dlp's console
//! output, the command lines handed to yt-dlp, and the state kept for the
//! downloads in flight.
use vstd::prelude::*;

pub mod text;
pub mod progress;
pub mod formats;
pub mod panel;
pub mod job;
pub mod display;
pub mod setup;

verus! {
} // verus!
