//! The values that a page is rendered from.

pub mod file_listing;
pub mod file_listing_entry;
