//! Quota accounting for a small file-sharing server.
//!
//! The server keeps two budgets per storage pool, one of bytes and one of
//! files, and admits uploads against them while data is still arriving.
//! This crate holds the decisions: what a counter does, how a streamed
//! upload is cut when the budget runs out, how the counters are brought back
//! in line with the disk, and which files the sweep may remove.
//! Reading sockets, files and clocks is left to the caller.

pub mod actions;
pub mod cleanup;
pub mod disksize;
pub mod file_list;
pub mod pool;
pub mod upload;
