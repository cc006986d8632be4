//! Regex search and find-and-replace over the contents of files, with the
//! reports that describe what was found or changed.

pub mod error;
pub mod escape;
pub mod files;
pub mod params;
pub mod pattern;
pub mod replace;
pub mod search;
pub mod text;
