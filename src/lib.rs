//! A small package manager: resolves program names from a catalog to release
//! assets of their repositories and plans their installation.

pub mod catalog;
pub mod config;
pub mod install;
pub mod resolve;
pub mod text;
pub mod update;
