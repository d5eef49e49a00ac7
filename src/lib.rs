//! Navigation and live-data engine of a terminal dashboard for CI pipelines:
//! list views with clamped selection and timestamped snapshots, a log viewer
//! with scroll and follow modes, log wrapping, and shaping of fetched
//! pipeline and job records.
pub mod config;
pub mod events;
pub mod graphql;
pub mod list_view;
pub mod log_view;
pub mod text;
