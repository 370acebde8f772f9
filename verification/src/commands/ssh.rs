//! The `ssh` command.

use vstd::prelude::*;
use vstd::string::*;
use crate::ssh::ServerConfig;

verus! {

/// The arguments of the `ssh` command.
#[derive(Debug)]
pub struct SshArgs {
    /// A project or a server; the project wins where both have the id.
    pub id: Option<String>,
    pub project: Option<String>,
    pub server: Option<String>,
    /// The command to run; a shell where there is none.
    pub command: Option<String>,
    pub subcommand: Option<SshSubcommand>,
}

/// What the `ssh` command is asked to do other than to connect.
#[derive(Clone, Copy, Debug, PartialEq, Eq, Structural)]
pub enum SshSubcommand {
    List,
}

/// What the `ssh` command reports.
#[derive(Debug)]
pub enum SshOutput {
    Connect(SshConnectOutput),
    List(SshListOutput),
}

/// The connection that was made.
#[derive(Debug)]
pub struct SshConnectOutput {
    pub resolved_type: String,
    pub project_id: Option<String>,
    pub server_id: String,
    pub command: Option<String>,
}

/// The servers that can be reached.
#[derive(Debug)]
pub struct SshListOutput {
    pub servers: Vec<ServerConfig>,
}

/// Whether the command lists the servers rather than connects to one.
pub fn lists_servers(args: &SshArgs) -> (r: bool)
    ensures
        r == (args.subcommand is Some),
{
    args.subcommand.is_some()
}

/// The report of a connection; the exit code is that of the session.
pub fn connected(
    resolved_type: String,
    project_id: Option<String>,
    server_id: String,
    command: Option<String>,
    exit_code: i32,
) -> (r: (SshOutput, i32))
    ensures
        r.0 == SshOutput::Connect(SshConnectOutput { resolved_type, project_id, server_id, command }),
        r.1 == exit_code,
{
    (SshOutput::Connect(SshConnectOutput { resolved_type, project_id, server_id, command }), exit_code)
}

/// The report of the servers.
pub fn listed(servers: Vec<ServerConfig>) -> (r: (SshOutput, i32))
    ensures
        r.0 == SshOutput::List(SshListOutput { servers }),
        r.1 == 0,
{
    (SshOutput::List(SshListOutput { servers }), 0)
}

} // verus!
