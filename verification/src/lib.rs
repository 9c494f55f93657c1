//! Protocol logic for Sony/Sharp NetMD MiniDisc recorders.
//!
//! The library covers everything that can be decided without touching the
//! USB bus: building command queries, scanning device replies, decoding
//! status words, title sanitization, disc group structure, WAV inspection
//! and the packet encryption of the secure download pipeline.
#![allow(unused_imports)]

pub mod chars;
pub mod cli;
pub mod commands;
pub mod control;
pub mod crypto;
pub mod descriptor;
pub mod device;
pub mod disc;
pub mod ekb;
pub mod error;
pub mod group_edits;
pub mod group_titles;
pub mod groups;
pub mod logbuf;
pub mod order;
pub mod playback;
pub mod query;
pub mod rows;
pub mod scan;
pub mod secure;
pub mod status;
pub mod text;
pub mod title;
pub mod title_laws;
pub mod track;
pub mod track_info;
pub mod transport;
pub mod types;
pub mod util;
pub mod wav;
