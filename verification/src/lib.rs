//! In-memory model and rendering-state logic of a terminal dashboard for
//! periodically sampled GPU telemetry: per-device memory/frequency stats and
//! per-client memory, engine-utilization and CPU histories, together with the
//! chart-alignment algorithm, client-identity resolution and the
//! navigation/scroll state machines that decide what is displayed.

pub mod align;
pub mod chart;
pub mod scroll;
pub mod select;
pub mod sink;
pub mod store;
pub mod history;
pub mod input;
pub mod listing;
pub mod memfmt;
pub mod nav;
