//! Fuzzy search over a large list of usernames: plain substring search,
//! look-alike letter classes, regular expressions and bounded weighted edit
//! distance, with chunked scanning, ranking and the bookkeeping around them.

pub mod action;
pub mod clip;
pub mod enrich;
pub mod extract;
pub mod load;
pub mod model;
pub mod page;
pub mod rank;
pub mod saved;
pub mod scan;
pub mod searcher;
pub mod session;
pub mod text;
