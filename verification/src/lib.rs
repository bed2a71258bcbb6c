//! Core logic of a media ingestion and processing pipeline.
//!
//! Users upload media files directly or in resumable chunks, subject to a
//! per-owner storage quota.  Uploaded files are virus-scanned, probed for
//! technical metadata, transcoded into an adaptive-bitrate HLS ladder, and
//! served back with per-day egress accounting and public/private access
//! rules.  The stages are wired by durable queues and share one canonical
//! resource record that advances along a typed lifecycle.
//!
//! This crate holds the datastore model, the message types, and every
//! decision the stages make; the surrounding binaries perform the queue,
//! object-store, and HTTP calls and hand plain values in and out.

pub mod api;
pub mod audit;
pub mod ffmpeg;
pub mod ladder;
pub mod media;
pub mod messages;
pub mod probe;
pub mod resources;
pub mod scan;
pub mod serve;
pub mod status;
pub mod text;
pub mod uploads;
