//! Turns the declared outputs of a deployed stack into lines of a pipeline
//! environment file.
//!
//! A run resolves its settings (`config`), reads the output pairs from the
//! description of the stack (`outputs`), keeps those that an allow-list
//! names (`filter`), renames their keys with a prefix in upper snake case
//! (`transform`) and formats one line for each (`env_file`). `pipeline` puts
//! these steps together; `text` holds the string handling they share.

pub mod config;
pub mod env_file;
pub mod filter;
pub mod outputs;
pub mod pipeline;
pub mod text;
pub mod transform;
