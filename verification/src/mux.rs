//! Packaging media for broadcasts: CMAF fragments in, tracks and catalogs out, and back.

pub mod aac;
pub mod atoms;
pub mod base64;
pub mod broadcast;
pub mod broadcast_demux;
pub mod broadcast_laws;
pub mod catalog;
pub mod catalog_laws;
pub mod cmsf;
pub mod cmsf_fmp4;
pub mod codec;
pub mod config;
pub mod consumer;
pub mod demux;
pub mod demux_laws;
pub mod description_laws;
pub mod faithful;
pub mod fmp4;
pub mod fmp4_laws;
pub mod fragment;
pub mod fragment_laws;
pub mod group_laws;
pub mod import_laws;
pub mod init;
pub mod leaf;
pub mod merge_laws;
pub mod mp4;
pub mod outbox;
pub mod parser;
pub mod poll_laws;
pub mod read_laws;
pub mod sample_entry;
pub mod track_laws;
pub mod types;
