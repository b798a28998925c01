//! Scans a project directory tree for signs of programming-language
//! toolchains (file extensions and canonical build-manifest names), and
//! plans a directory-local environment activation: a generated activation
//! file of build directives plus an ordered list of one-shot setup commands.
//!
//! The rule catalog, the pruning traversal, the duplicate-suppressing
//! aggregation and the commit logic (activation-file plan, command session)
//! live here, verified. Reading the filesystem, writing the activation file
//! and spawning processes are left to the surrounding binary, which hands
//! this library plain values.

pub mod action;
pub mod env;
pub mod errors;
pub mod fs_tree;
pub mod run;
pub mod path_match;
pub mod steps;
