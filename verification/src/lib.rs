//! Polite single-page scraping: a crawl-exclusion policy evaluator, a
//! selector-driven element extractor and the decisions that sequence a fetch.

pub mod text;
pub mod policy;
pub mod extract;
pub mod error;
pub mod selector;
pub mod target;
pub mod session;
pub mod report;
