//! Core of a local multi-protocol AI gateway: credential-pool scheduling,
//! mapping between three chat protocols with continuation-signature bridging, model-name
//! mapping, hot-swappable routing configuration and request monitoring.
pub mod mapping;
pub mod scheduler;
pub mod continuation;
pub mod config;
pub mod service;
pub mod retry;
pub mod stream;
pub mod monitor;
pub mod canonical;
pub mod adapter;
pub mod bridge;
pub mod upstream;
