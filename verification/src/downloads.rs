//! How a download is named and what state it is shown in.

use vstd::prelude::*;
use crate::text::{owned, copy_string, opt_view};
use crate::paths::{file_name, path_file_name};

verus! {

/// What the download list shows of a download.
#[derive(Clone, Debug, PartialEq, Eq)]
pub struct DownloadProgress {
    pub suggested_file_name: String,
    pub full_path: Option<String>,
    pub percent_complete: i32,
    pub total_bytes: i64,
    pub received_bytes: i64,
    pub is_in_progress: bool,
    pub is_complete: bool,
    pub is_canceled: bool,
    pub is_interrupted: bool,
}

/// The state a download is shown in. An active download shows its percentage (never below
/// zero), the bytes received, and the total when it is known.
#[derive(Clone, Copy, Debug, PartialEq, Eq, Structural)]
pub enum DownloadStatus {
    Complete,
    Canceled,
    Interrupted,
    InProgress { percent: i32, received_bytes: i64, total_bytes: Option<i64> },
    Queued,
}

/// The state of a download: finished states first, in the order complete, canceled,
/// interrupted; then in progress; else queued.
pub open spec fn spec_download_status(d: DownloadProgress) -> DownloadStatus {
    if d.is_complete {
        DownloadStatus::Complete
    } else if d.is_canceled {
        DownloadStatus::Canceled
    } else if d.is_interrupted {
        DownloadStatus::Interrupted
    } else if d.is_in_progress {
        DownloadStatus::InProgress {
            percent: if d.percent_complete < 0 { 0i32 } else { d.percent_complete },
            received_bytes: d.received_bytes,
            total_bytes: if d.total_bytes > 0 { Some(d.total_bytes) } else { None },
        }
    } else {
        DownloadStatus::Queued
    }
}

pub fn download_status(d: &DownloadProgress) -> (r: DownloadStatus)
    ensures
        r == spec_download_status(*d),
{
    if d.is_complete {
        DownloadStatus::Complete
    } else if d.is_canceled {
        DownloadStatus::Canceled
    } else if d.is_interrupted {
        DownloadStatus::Interrupted
    } else if d.is_in_progress {
        DownloadStatus::InProgress {
            percent: if d.percent_complete < 0 { 0 } else { d.percent_complete },
            received_bytes: d.received_bytes,
            total_bytes: if d.total_bytes > 0 { Some(d.total_bytes) } else { None },
        }
    } else {
        DownloadStatus::Queued
    }
}

/// The name a download is listed under: the suggested file name, else the file name of its
/// path, else `download`.
pub open spec fn spec_download_name(d: DownloadProgress) -> Seq<char> {
    if d.suggested_file_name@.len() > 0 {
        d.suggested_file_name@
    } else {
        match opt_view(d.full_path) {
            Some(p) => match path_file_name(p) {
                Some(n) => n,
                None => "download"@,
            },
            None => "download"@,
        }
    }
}

pub fn download_display_name(d: &DownloadProgress) -> (r: String)
    ensures
        r@ == spec_download_name(*d),
{
    if !d.suggested_file_name.as_str().is_empty() {
        return copy_string(&d.suggested_file_name);
    }
    match &d.full_path {
        Some(p) => match file_name(p.as_str()) {
            Some(n) => n,
            None => owned("download"),
        },
        None => owned("download"),
    }
}

} // verus!
