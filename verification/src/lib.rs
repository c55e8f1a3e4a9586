//! Verified core of a small file-backed wiki server: the revision file
//! format, the user list, page locks, request-guard decisions, Basic
//! authentication headers and the media index.

pub mod authstruct;
pub mod basic;
pub mod config;
pub mod jsadmin;
pub mod jsuser;
pub mod logs;
pub mod media;
pub mod outcome;
pub mod pagemap;
pub mod site;
pub mod text;
pub mod user;
pub mod wikifile;
