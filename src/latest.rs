//! The unpinned namespace: it serves exactly the operations of the newest pinned version.
pub use crate::v0_0_1::{fuzzy_search, list_all_areas, list_areas, outages, routes, schedules};
