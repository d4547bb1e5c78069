//! The decisions of a Python package installer, apart from the filesystem,
//! the terminal and the network.
//!
//! At the centre stands the placing of an unpacked wheel into an
//! installation directory ([`extraction`], [`link_mode`], [`locks`],
//! [`executable`]): which filesystem operation to try for each entry, when to
//! give it up and copy instead, and what a session of many wheels shares.
//! What holds of every extraction is proved in [`guarantees`]. The caller
//! performs the operations and reports how they ended.
//!
//! Around it stand the checks of platform tags before an upload
//! ([`pypi_compat`]), upgrade requests and exclusions ([`upgrade`],
//! [`exclusions`], [`sources`]), the project file `uv-workspace.toml`
//! ([`workspace_toml`]), help pages and pagers ([`help_text`], [`commands`],
//! [`pager`]), tool requests ([`tool`]) and a few smaller decisions
//! ([`limits`], [`cache_clean`]).

pub mod cache_clean;
pub mod commands;
pub mod exclusions;
pub mod executable;
pub mod extraction;
pub mod guarantees;
pub mod help_text;
pub mod limits;
pub mod link_mode;
pub mod locks;
pub mod name_table;
pub mod pager;
pub mod pypi_compat;
pub mod sources;
pub mod text;
pub mod toml_items;
pub mod tool;
pub mod upgrade;
pub mod workspace_toml;
