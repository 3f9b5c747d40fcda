//! Fetching hourly log archives: the keys of the hours asked for, the
//! scheduling of the downloads, what each download does with the bytes it
//! receives, and the report of how each one ended.

pub mod batch;
pub mod bucket;
pub mod config;
pub mod event;
pub mod job;
pub mod report;
pub mod run;
pub mod scheduler;
pub mod stage;
pub mod text;
pub mod transcode;
