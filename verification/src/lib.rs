//! Core logic of a cross-platform open-source application store: version
//! comparison and update policy, repository coordinates, deep links, asset
//! selection, catalog search and icon cache naming.

pub mod text;
pub mod models;
pub mod version;
pub mod forge;
pub mod urlcodec;
pub mod deeplink;
pub mod installer;
pub mod icons;
pub mod digest;
pub mod ranking;
pub mod catalog;
pub mod config;
pub mod settings;
pub mod detected;
pub mod remote;
pub mod detail;
pub mod app_detail;
pub mod watch;
pub mod install;
pub mod paths;
pub mod developer;
pub mod online;
pub mod markdown;
pub mod sync;
pub mod hosts;
