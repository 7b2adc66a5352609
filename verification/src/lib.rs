//! Named prompts with at most one active prompt, whose content is mirrored
//! into one external text file.
//!
//! The record table and the file are held as plain values; every change to
//! them is also recorded as an [`prompt_service::Effect`], so that a host can
//! carry the same changes out on persistent storage.

pub mod clock;
pub mod config;
pub mod database;
pub mod error;
pub mod laws;
pub mod name_map;
pub mod prompt;
pub mod prompt_file;
pub mod prompt_map;
pub mod prompt_service;
pub mod protocol;
pub mod text;
