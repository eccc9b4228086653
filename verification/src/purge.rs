//! The bulk-purge search filter.
//!
//! An administrator names a search string; recent messages whose content
//! carries it are collected across the channels and, on confirmation,
//! deleted.  The caller walks each channel's history newest-first and
//! owns the platform calls; this module decides which messages qualify
//! and where a channel's walk stops.

use crate::scan;
use crate::scan::contains_seq;
use vstd::prelude::*;

verus! {

/// How far back the search reaches, in milliseconds: one day.
pub const PURGE_WINDOW_MS: i64 = 86400000;

/// Whether a message belongs to the purge set: its content carries the
/// search string, and it was not sent by the administrator who asked.
pub fn message_matches_search(content: &str, search: &str, author_id: u64, invoker_id: u64) -> (b:
    bool)
    ensures
        b == (contains_seq(content@, search@) && author_id != invoker_id),
{
    if author_id == invoker_id {
        return false;
    }
    let content_chars = scan::to_chars(content);
    let search_chars = scan::to_chars(search);
    scan::find_sub(&content_chars, &search_chars)
}

/// Whether a message's timestamp still lies inside the search window
/// that started at `search_start_ms`; a channel's walk stops at the
/// first message outside it.
pub fn within_purge_window(search_start_ms: i64, timestamp_ms: i64) -> (b: bool)
    requires
        search_start_ms - timestamp_ms <= i64::MAX,
        search_start_ms - timestamp_ms >= i64::MIN,
    ensures
        b == (search_start_ms - timestamp_ms <= PURGE_WINDOW_MS),
{
    search_start_ms - timestamp_ms <= PURGE_WINDOW_MS
}

} // verus!
