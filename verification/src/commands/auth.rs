//! The `auth` command.

use vstd::prelude::*;
use vstd::string::*;
use crate::auth::{AuthStatus, LoginResult};

verus! {

/// The arguments of the `auth` command.
#[derive(Debug)]
pub struct AuthArgs {
    pub command: AuthCommand,
}

/// What the `auth` command is asked to do.
#[derive(Debug)]
pub enum AuthCommand {
    Login { project: String, identifier: Option<String>, password: Option<String> },
    Logout { project: String },
    Status { project: String },
}

/// What the `auth` command reports.
#[derive(Debug)]
pub enum AuthOutput {
    Login { project_id: String, success: bool },
    Logout { project_id: String },
    Status { project_id: String, authenticated: bool },
}

/// What a login still needs to ask for at the terminal.
#[derive(Clone, Copy, Debug, PartialEq, Eq, Structural)]
pub struct LoginPrompts {
    pub identifier: bool,
    pub password: bool,
}

/// What a login needs to ask for: the identifier and the password that were not given.
pub fn login_prompts(identifier: &Option<String>, password: &Option<String>) -> (r: LoginPrompts)
    ensures
        r.identifier == (*identifier is None),
        r.password == (*password is None),
{
    LoginPrompts { identifier: identifier.is_none(), password: password.is_none() }
}

/// The report of a login.
pub fn run_login(result: LoginResult) -> (r: (AuthOutput, i32))
    ensures
        r.0 == (AuthOutput::Login { project_id: result.project_id, success: result.success }),
        r.1 == 0,
{
    (AuthOutput::Login { project_id: result.project_id, success: result.success }, 0)
}

/// The report of a logout.
pub fn run_logout(project_id: &str) -> (r: (AuthOutput, i32))
    ensures
        r.0 matches AuthOutput::Logout { project_id: p } && p@ == project_id@,
        r.1 == 0,
{
    (AuthOutput::Logout { project_id: String::from_str(project_id) }, 0)
}

/// The report of the status of a project.
pub fn run_status(status: AuthStatus) -> (r: (AuthOutput, i32))
    ensures
        r.0 == (AuthOutput::Status {
            project_id: status.project_id,
            authenticated: status.authenticated,
        }),
        r.1 == 0,
{
    (AuthOutput::Status { project_id: status.project_id, authenticated: status.authenticated }, 0)
}

} // verus!
