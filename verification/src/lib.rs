//! Connectivity probe for a forward proxy: repeatedly sends one minimal HTTP
//! request through a proxied tunnel, classifies each outcome, and aggregates
//! statistics that decide the process exit code.

pub mod config;
pub mod interval;
pub mod proxy;
pub mod report;
pub mod stats;
pub mod target;
