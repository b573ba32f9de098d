//! Passive profiler read-model: job classification, bounded diagnostic rings,
//! report keys and table rendering.
pub mod text;
pub mod budget_tree;
pub mod metadata;
pub mod records;
pub mod classification;
pub mod jobs;
pub mod flush;
pub mod csv;
pub mod markdown;
pub mod output;
pub mod analysis;
pub mod parsing;
pub mod constants;
pub mod events;
pub mod report;
pub mod grouping;
pub mod recorder;
pub mod envelope;
pub mod summary;
pub mod pressure;
pub mod wire;
pub mod dispatch;
pub mod archive;
pub mod tables;
pub mod report_md;
