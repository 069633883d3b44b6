//! Status aggregation for a fixed set of service-manager units: it reads the
//! manager's raw answers for each configured service, reconciles unit names with
//! the configuration and derives the fields that a dashboard shows.
pub mod aggregate;
pub mod detail;
pub mod model;
pub mod property;
pub mod resolve;
pub mod uptime;
