//! Build-time asset compiler: classifies the files of an asset tree, derives
//! identifiers from their names, synthesises one module text per directory and
//! allocates compact integer handles for named assets.

pub mod ident;
pub mod kind;
pub mod module;
pub mod database;
pub mod ids;
pub mod assets;
pub mod config;
pub mod link;
pub mod log;

