//! Read-only access to a loadshedding calendar: decoding its outage and schedule feeds, and
//! answering queries about areas over the decoded outages.
pub mod api;
pub mod areas;
pub mod calendar;
pub mod feed;
pub mod latest;
pub mod matching;
pub mod recurrence;
pub mod region;
pub mod structs;
pub mod table;
pub mod text;
pub mod v0_0_1;
pub mod laws;
