//! Read-only decoder for GGPK content archives.
//!
//! Three layers, each resting on the one before it:
//!
//! - [`bundles::bundle`]: the bundle container. It frames the compressed
//!   blocks of a bundle and judges what the native block decompressor returns
//!   for each of them.
//! - [`bundles::index`]: the archive index. It reads the bundle table, the
//!   file table and the directory table, decodes the path fragments of the
//!   directory payload ([`bundles::paths`]) and attaches each path to the
//!   file that its hash names ([`bundles::hash`]).
//! - [`dat`]: the row decoder of DAT tables. It finds the row length by
//!   looking for the marker behind the rows and decodes cells by an
//!   externally supplied column schema.
//!
//! Beside them stand what the surrounding program shows of an index
//! ([`ui::tree_view`]), how it takes files out of bundles ([`export`]), how
//! it judges a newer release ([`update`]) and the settings that it starts
//! with ([`settings`]).
//!
//! Every function states what it returns in its contract, over the
//! mathematical values that the `View` of each type gives.

pub mod bundles;
pub mod bytes;
pub mod dat;
pub mod export;
pub mod settings;
pub mod text;
pub mod ui;
pub mod update;
