//! A local, queryable catalog of transit stations.
//!
//! The catalog is filled once from a hierarchical upstream directory
//! (country, region, settlement, station), flattened into independent
//! [`record::StationRecord`]s, and read back through a filtering and
//! paginating query engine.  An alternative path enriches single stations
//! with facts scraped from per-entity web pages, many pages at a time,
//! keeping whichever lookups succeed.
//!
//! The crate holds the decision and computation logic only.  Network and
//! store access happen outside it: callers hand in what was fetched or
//! counted, and carry out the actions the library asks for.

pub mod directory;
pub mod enrich;
pub mod loader;
pub mod params;
pub mod query;
pub mod record;
