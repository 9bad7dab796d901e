//! Connection metrics: the live table, the stored-metric queries and the
//! writer's bookkeeping.
pub mod maintenance;
pub mod query;
pub mod realtime;
