//! Control-plane logic for AI-friendly multi-repository workspaces: catalog
//! records, workspace identity and lookup, the knowledge-base wiki lint, the
//! repo-init healthcheck, dev-install bookkeeping and the provider glue that
//! only computes. Filesystem, process and network work is left to the caller,
//! which hands the results in as plain values.
pub mod text;
pub mod error;
pub mod command;
pub mod models;
pub mod workspaces;
pub mod dev;
pub mod kb;
pub mod lint;
pub mod artifact;
pub mod healthcheck;
pub mod tasks;
pub mod lifecycle;
pub mod catalog;
pub mod setup;
pub mod providers;
pub mod repo_ops;
pub mod editors;
pub mod dex;
pub mod encoding;
pub mod atlassian;
pub mod github;
pub mod screens;
pub mod docs;
