//! The `context` command.

use vstd::prelude::*;
use vstd::string::*;
use crate::commands::init::ContextOutput;

verus! {

/// The arguments of the `context` command.
#[derive(Debug)]
pub struct ContextArgs {
    /// Look for repositories below the working directory.
    pub discover: bool,
    /// How deep to look.
    pub depth: usize,
}

/// What the `context` command reports. What was discovered is kept as JSON text.
#[derive(Debug)]
pub enum ContextCommandOutput {
    Context(ContextOutput),
    Discover(String),
}

/// How deep `--discover` looks where nothing is said.
pub const DEFAULT_DEPTH: usize = 2;

/// The report of the working directory.
pub fn context(output: ContextOutput, code: i32) -> (r: (ContextCommandOutput, i32))
    ensures
        r.0 == ContextCommandOutput::Context(output),
        r.1 == code,
{
    (ContextCommandOutput::Context(output), code)
}

/// The report of what was discovered.
pub fn discovered(output: String, code: i32) -> (r: (ContextCommandOutput, i32))
    ensures
        r.0 == ContextCommandOutput::Discover(output),
        r.1 == code,
{
    (ContextCommandOutput::Discover(output), code)
}

} // verus!
