//! Release pipeline engine and the remote-operations toolkit around it.

pub mod auth;
pub mod base_path;
pub mod commands;
pub mod component;
pub mod config;
pub mod db;
pub mod deploy;
pub mod error;
pub mod graph;
pub mod graph_lemmas;
pub mod json;
pub mod logs;
pub mod numbers;
pub mod pipeline;
pub mod pipeline_laws;
pub mod release;
pub mod remote_files;
pub mod resolve;
pub mod search;
pub mod shell;
pub mod split;
pub mod ssh;
pub mod template;
pub mod text;
pub mod tree;
pub mod tree_laws;
pub mod version;
