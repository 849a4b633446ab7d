//! One call installs a process's telemetry: a stderr layer for the developer and,
//! when an exporter is configured, an allow-listed OTLP/HTTP log and span exporter.
//!
//! This crate is what that call decides: which targets leave the device
//! ([`allow`]), how much of the exporter's own reporting reaches stderr ([`noise`]),
//! what an exporter authenticates with and is built from ([`bearer`],
//! [`exporter`]), what is installed and how that changes ([`guard`]), what an
//! outbound request's span may record ([`client`]), and what a probe of a collector
//! sends and makes of the answer ([`probe`]).
//!
//! Nothing here performs I/O. Where a decision depends on what the outside did, a
//! function is told what happened and says what to do next.

pub mod allow;
pub mod bearer;
pub mod client;
pub mod exporter;
pub mod guard;
pub mod headers;
pub mod noise;
pub mod probe;
pub mod text;

pub use crate::exporter::Exporter;
pub use crate::guard::init;
pub use crate::guard::Guard;
pub use crate::probe::probe;
pub use crate::probe::ProbeError;
