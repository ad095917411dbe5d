//! Verified core of a manga chapter downloader: catalogue data shaping,
//! page naming, delivery telemetry, retry bookkeeping, bounded scheduling
//! and archive packing.

pub mod archive;
pub mod batch;
pub mod commands;
pub mod download;
pub mod model;
pub mod naming;
pub mod pool;
pub mod retry;
pub mod service;
pub mod session;
pub mod telemetry;
pub mod text;
