//! Samplesheet generation for nf-core sequencing pipelines.
//!
//! The crate turns a list of discovered FASTQ file paths into a validated
//! samplesheet: it derives canonical sample identities from file names,
//! groups mate files per sample, and assembles the header and record lines
//! that a downstream pipeline expects. File discovery and file writing are
//! left to the caller.

pub mod cli;
pub mod identity;
pub mod pipelines;
pub mod prelude;
pub mod scrnaseq;
pub mod utils;
pub mod viralrecon;
