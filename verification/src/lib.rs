//! A site blocker's daemon, verified: named blocks of URL patterns with a
//! small state machine over them, the rule that allows or denies a URL, a
//! weekly schedule that starts and ends blocks, and the two channels over
//! which a command-line client and a browser bridge talk to the daemon.
//!
//! The library decides and computes. Sockets, threads, clocks and files are
//! the caller's: it hands in requests and clock readings as plain values and
//! carries out what comes back.

pub mod bridge;
pub mod check;
pub mod commands;
pub mod config;
pub mod control;
pub mod json;
pub mod matcher;
pub mod notifier;
pub mod schedule;
pub mod service;
pub mod state;
pub mod text;
pub mod week;
pub mod wire;
