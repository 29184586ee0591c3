//! Declarative log routing: severity and category filters, line formatters,
//! bounded delivery queues and the router that ties them together.

pub mod log;
pub mod utils;
