//! Progress reports: how one JSON progress line changes a download.
use crate::json::{progress_fields, read_progress_fields, ProgressFields};
use crate::models::{clone_opt_string, DownloadEntry, Percent};
use crate::text::eq_str;
use vstd::prelude::*;

verus! {

/// Whether a report's status is the string "finished".
pub open spec fn reports_finished(p: ProgressFields) -> bool {
    p.status matches Some(s) && s@ == "finished"@
}

/// The total that a report gives: `total_bytes`, else the estimate.
pub open spec fn reported_total(p: ProgressFields) -> Option<u64> {
    if p.total_bytes is Some {
        p.total_bytes
    } else {
        p.total_bytes_estimate
    }
}

/// A download after one progress report: byte counts that the report lacks
/// keep their last value; speed and ETA are replaced; the share is updated when
/// the report gives both counts and a non-zero total; a finished fragment is full.
pub open spec fn apply_progress(e: DownloadEntry, p: ProgressFields) -> DownloadEntry {
    let total = reported_total(p);
    let share = match (p.downloaded_bytes, total) {
        (Some(d), Some(t)) => if t > 0 {
            Percent::Share { done: d, total: t }
        } else {
            e.percent
        },
        _ => e.percent,
    };
    let finished = reports_finished(p);
    DownloadEntry {
        downloaded_bytes: if p.downloaded_bytes is Some {
            p.downloaded_bytes
        } else {
            e.downloaded_bytes
        },
        total_bytes: if total is Some {
            total
        } else {
            e.total_bytes
        },
        speed: if finished {
            None
        } else {
            p.speed
        },
        eta: if finished {
            None
        } else {
            p.eta
        },
        percent: if finished {
            Percent::Full
        } else {
            share
        },
        ..e
    }
}

/// Applies the fields of one progress report to a download.
pub fn apply_progress_fields(entry: &mut DownloadEntry, p: &ProgressFields)
    ensures
        *final(entry) == apply_progress(*old(entry), *p),
{
    let total = match p.total_bytes {
        Some(t) => Some(t),
        None => p.total_bytes_estimate,
    };
    if p.downloaded_bytes.is_some() {
        entry.downloaded_bytes = p.downloaded_bytes;
    }
    if total.is_some() {
        entry.total_bytes = total;
    }
    entry.speed = clone_opt_string(&p.speed);
    entry.eta = clone_opt_string(&p.eta);
    match (p.downloaded_bytes, total) {
        (Some(d), Some(t)) => {
            if t > 0 {
                entry.percent = Percent::Share { done: d, total: t };
            }
        },
        _ => {},
    }
    let finished = match &p.status {
        Some(s) => eq_str(s.as_str(), "finished"),
        None => false,
    };
    if finished {
        entry.percent = Percent::Full;
        entry.speed = None;
        entry.eta = None;
    }
}

/// Reads one JSON progress line into a download. Returns false, and leaves the
/// download as it was, when the line is not JSON.
pub fn parse_progress_line(line: &str, entry: &mut DownloadEntry) -> (parsed: bool)
    ensures
        parsed == (progress_fields(line@) is Some),
        match progress_fields(line@) {
            Some(p) => *final(entry) == apply_progress(*old(entry), p),
            None => *final(entry) == *old(entry),
        },
{
    match read_progress_fields(line) {
        Some(p) => {
            apply_progress_fields(entry, &p);
            true
        },
        None => false,
    }
}

} // verus!
