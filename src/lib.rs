//! Resolves vendor codes to media files in a remote share or a local tree
//! and drives their upload to a marketplace content service.
pub mod text;
pub mod media;
pub mod classify;
pub mod listing;
pub mod error;
pub mod urls;
pub mod product;
pub mod upload;
pub mod links;
pub mod run;
pub mod local;
pub mod config;
pub mod profile;
pub mod input;
pub mod session;
pub mod orchestrate;
