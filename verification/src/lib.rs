//! Publo: a local-first publishing pipeline. This crate holds the verified core:
//! note parsing, platform validation, configuration layering, publish planning,
//! the job lifecycle and the provider-facing payload and error rules.

pub mod chars;
pub mod json;
pub mod text;
pub mod note;
pub mod errors;
pub mod urls;
pub mod paths;
pub mod publish;
pub mod media;
pub mod lines;
pub mod config;
pub mod setup;
pub mod commands;
pub mod auth;
pub mod guard;
pub mod platforms;
pub mod jobs;
pub mod schedule;
pub mod catalog;
pub mod badges;
pub mod link_preview;
pub mod substack;
pub mod oauth;
pub mod preflight;
pub mod publishing;
pub mod clock;
pub mod requests;
