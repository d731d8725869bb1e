//! The settings of one run, resolved once from the variables it was given.

use vstd::prelude::*;

verus! {

/// The settings of one run.
#[derive(Debug)]
pub struct Config {
    /// The stack to describe.
    pub stack: String,
    /// What is put before every output key.
    pub prefix: String,
    /// The comma-separated allow-list of output keys; blank for all.
    pub only: String,
    /// The path of the environment file to append to.
    pub env_file: String,
}

/// A required variable that was not given.
#[derive(Debug, Clone, Copy, PartialEq, Eq, Structural)]
pub enum ConfigError {
    /// No stack was named.
    MissingStack,
    /// A stack was named, and no environment file.
    MissingEnvFile,
}

/// The prefix in force: the one given, or the stack's name where none is.
pub open spec fn prefix_in_force(stack: Seq<char>, prefix: Option<Seq<char>>) -> Seq<char> {
    match prefix {
        Some(prefix) => prefix,
        None => stack,
    }
}

/// The allow-list in force: the one given, or the empty one where none is.
pub open spec fn only_in_force(only: Option<Seq<char>>) -> Seq<char> {
    match only {
        Some(only) => only,
        None => Seq::empty(),
    }
}

impl Config {
    /// Resolves the settings from the variables as they were found, each
    /// `None` where it is not set. The stack and the environment file are
    /// required, and the stack is looked for first.
    pub fn from_vars(
        stack: Option<String>,
        prefix: Option<String>,
        only: Option<String>,
        env_file: Option<String>,
    ) -> (r: Result<Config, ConfigError>)
        ensures
            match r {
                Ok(config) => {
                    &&& stack is Some
                    &&& env_file is Some
                    &&& config.stack@ == stack->0@
                    &&& config.prefix@ == prefix_in_force(stack->0@, prefix.deep_view())
                    &&& config.only@ == only_in_force(only.deep_view())
                    &&& config.env_file@ == env_file->0@
                },
                Err(ConfigError::MissingStack) => stack is None,
                Err(ConfigError::MissingEnvFile) => stack is Some && env_file is None,
            },
    {
        let stack = match stack {
            Some(stack) => stack,
            None => { return Err(ConfigError::MissingStack); },
        };
        let env_file = match env_file {
            Some(env_file) => env_file,
            None => { return Err(ConfigError::MissingEnvFile); },
        };
        let prefix = match prefix {
            Some(prefix) => prefix,
            None => stack.clone(),
        };
        let only = match only {
            Some(only) => only,
            None => String::new(),
        };
        Ok(Config { stack, prefix, only, env_file })
    }
}

} // verus!
