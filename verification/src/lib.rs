//! Harvesting engine for paginated issue-tracker listings: sampling of probe
//! identifiers, page walking, filtering and stamping of harvested records,
//! deduplication, and commit-activity windows around an anchor time.

pub mod aggregate;
pub mod config;
pub mod dedup;
pub mod endpoint;
pub mod filter;
pub mod record;
pub mod sampler;
pub mod store;
pub mod text;
pub mod walk_laws;
pub mod walker;
pub mod window;
