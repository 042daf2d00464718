//! Backup and restore of files: what is copied and where to, how small files are collected
//! into blobs and found again, what follows a copy, and how all of it is counted.
//!
//! The library decides and computes; its callers read and write. An operation on a file, a
//! share or a clock is handed in as its outcome, so each decision is a function from state
//! and outcome to the next step.
//!
//! - Paths and text: `text`, `paths`, `path_util`, `order`.
//! - Files on their way: `metadata`, `fcb`, `copy_block`, `copy_plan`, `entry`, `transport`,
//!   `executor`, `local_executor`, `local_metadata`, `bio_copy`, `pipelines`, `orchestrator`,
//!   `stats`.
//! - Small files in blobs: `aggregate`, `buckets`, `aggregate_engine`, `aggregate_local`,
//!   `aggregation`, `aggregate_index`, `aggregate_dir_index`, `aggregate_restore`.
//! - Jobs and phases: `backup`, `restore_pipeline`, `hardlink`, `delete`, `mtime`,
//!   `sharded_processor`, `failure`, `location`.
//! - Programs: `cli`, `scan`, `server`, `server_tasks`, `counter`, `fsdiff`, `vdbench`,
//!   `inspect`, `inspect_table`, `inspect_files`.
use vstd::prelude::*;

pub mod aggregate;
pub mod aggregate_dir_index;
pub mod aggregate_engine;
pub mod aggregate_index;
pub mod aggregate_local;
pub mod aggregate_restore;
pub mod aggregation;
pub mod backup;
pub mod bio_copy;
pub mod buckets;
pub mod cli;
pub mod copy_block;
pub mod copy_plan;
pub mod counter;
pub mod delete;
pub mod entry;
pub mod executor;
pub mod failure;
pub mod fcb;
pub mod fsdiff;
pub mod hardlink;
pub mod inspect;
pub mod inspect_files;
pub mod inspect_table;
pub mod local_executor;
pub mod local_metadata;
pub mod location;
pub mod metadata;
pub mod mtime;
pub mod orchestrator;
pub mod order;
pub mod path_util;
pub mod paths;
pub mod pipelines;
pub mod restore_pipeline;
pub mod scan;
pub mod server;
pub mod server_tasks;
pub mod sharded_processor;
pub mod stats;
pub mod text;
pub mod transport;
pub mod vdbench;

verus! {

} // verus!
