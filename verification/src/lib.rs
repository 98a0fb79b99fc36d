//! Correlates pacman news with pending package updates.
//!
//! For a user of a rolling-release system this library answers: which
//! published news articles mention packages that are outdated locally?
//! It builds the outdated-package set from two name-to-version mappings
//! ([`versions`]), finds the most recent full-upgrade timestamp in the
//! pacman log ([`sync`]), parses news-overview table rows into article
//! records ([`articles`]), and joins the three by date cutoff and
//! case-insensitive title match ([`correlate`]).
//!
//! Acquiring the inputs — package databases, the log file, the news
//! page — and ordering version strings are the caller's concern; every
//! function here computes on plain values and carries a proved contract.

pub mod articles;
pub mod correlate;
pub mod datetime;
pub mod sync;
pub mod text;
pub mod versions;
