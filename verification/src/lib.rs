//! Verified core of `ndf`, a tool that compares Nix derivations between revisions.

pub mod digits;
pub mod natural_ord;
pub mod text;
pub mod styles;
pub mod source;
pub mod attr_path;
pub mod glob;
pub mod nix;
pub mod summary;
pub mod vcs;
pub mod display;
pub mod diff_spec;
pub mod command;
pub mod json;
pub mod eval;
pub mod order;
pub mod cli;
pub mod examples;
pub mod items;
