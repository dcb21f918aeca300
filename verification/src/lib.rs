//! Collapse clusters of duplicate paired-end sequencing reads to a single
//! representative read pair each.
//!
//! Reads from two mate files are first indexed by identifier. A
//! cluster-membership file is then walked line by line: member lines name
//! reads, boundary lines close the cluster under construction. Each completed
//! cluster is collapsed to the pair whose combined sequence agrees with the
//! cluster's consensus and whose average per-base error probability is lowest.

pub mod cluster_line;
pub mod index;
pub mod parser;
pub mod record;
pub mod select;
