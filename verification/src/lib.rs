//! Core of an embeddable real-time telemetry provider.
//!
//! The crate models the heart of a tracing/metrics runtime: named metric
//! streams ("tracers") are multiplexed toward remote subscribers over a
//! binary protocol.  Per-stream `Recorder` state machines own the subscriber
//! bookkeeping and the data path, while the flow modules define the data
//! contract of every stream kind: immutable metadata, a mutable state, an
//! ordered delta stream, and byte codecs whose round trips are proved.

pub mod alert;
pub mod auth;
pub mod codec;
pub mod counter;
pub mod exporter;
pub mod flow;
pub mod histogram;
pub mod protocol;
pub mod provider;
pub mod pulse;
pub mod recorder;
pub mod selector;
pub mod sender;
pub mod text;
pub mod trace;
pub mod tracers;
pub mod worker;
