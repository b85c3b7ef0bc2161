//! Resolve parameter-store values into the environment of a child process.
//!
//! The library holds the decisions of the tool: how export flags are read,
//! which keys are requested, how returned keys become environment names,
//! how the child's environment is assembled and how its exit status maps to
//! the tool's own exit code. Talking to the store and spawning the child are
//! left to the caller.

pub mod args;
pub mod environment;
pub mod export;
pub mod rename;
pub mod resolve;
pub mod text;
