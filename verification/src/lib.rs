//! Point-in-time inventories of directories, and the comparison of two of them.
//!
//! A scan lists the immediate children of each directory it is given and
//! merges what it finds into one snapshot; two snapshots are compared to say
//! which entries are new, removed, resized or unchanged.
//!
//! * [`entry`]: one filesystem child, identified by kind, path and size.
//! * [`entry_set`]: a set of entries that keeps the order of insertion.
//! * [`crawl`]: the snapshot.
//! * [`scan`]: from the listing of one directory to a batch of entries.
//! * [`recorder`]: the collector that merges the batches of all directories.
//! * [`diff`]: the comparison of two snapshots.
//! * [`config`], [`folders`], [`stamp`]: the switches of a run, the
//!   directories to scan, and the names of the files written.
//! * [`distinct`], [`select`]: what the contracts say of sequences.
//!
//! Listing directories, channels, the clock, and reading and writing files
//! are left to the caller: the library works on plain values.

pub mod config;
pub mod crawl;
pub mod diff;
pub mod distinct;
pub mod entry;
pub mod entry_set;
pub mod folders;
pub mod recorder;
pub mod scan;
pub mod select;
pub mod stamp;
