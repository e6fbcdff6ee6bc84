//! Decides which browser opens a URL.
//!
//! A configuration lists browsers, each with a priority, a command line
//! template and a list of match rules. Given a URL, the library walks the
//! browsers from the highest priority down, takes the first one with a rule
//! that accepts the URL, and renders its command line.

pub mod config;
pub mod err;
pub mod launcher;
pub mod pattern;
pub mod registry;
pub mod template;
pub mod text;
