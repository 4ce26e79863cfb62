//! Metric events and where they go.

pub mod event_laws;
pub mod events;
pub mod metered_storage;
pub mod reporter;
