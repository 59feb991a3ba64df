//! Verified core of a local-first attention handoff: focus timelines, activity
//! projection, attention proposals, and the decisions of the collector.
pub mod instant;
pub mod text;
pub mod focus;
pub mod slices;
pub mod config;
pub mod niri;
pub mod presence;
pub mod protocol;
pub mod collector;
pub mod attention;
pub mod triage;
pub mod records;
pub mod storage;
pub mod journal;
pub mod agent;
pub mod runtime;
pub mod views;
pub mod cli;
pub mod service;
pub mod mcp;
pub mod host;
pub mod remote;
