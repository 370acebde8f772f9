//! Signing in to the API of a project.

use vstd::prelude::*;
use vstd::string::*;

verus! {

/// How a login ended.
#[derive(Debug)]
pub struct LoginResult {
    pub project_id: String,
    pub success: bool,
}

/// Whether a project is signed in.
#[derive(Debug)]
pub struct AuthStatus {
    pub project_id: String,
    pub authenticated: bool,
}

/// One entry of what is sent to sign in.
#[derive(Debug)]
pub struct Credential {
    pub name: String,
    pub value: String,
}

/// What is sent to sign in: the identifier and the password.
pub fn credentials(identifier: String, password: String) -> (r: Vec<Credential>)
    ensures
        r@.len() == 2,
        r@[0].name@ == "identifier"@,
        r@[0].value == identifier,
        r@[1].name@ == "password"@,
        r@[1].value == password,
{
    let mut out: Vec<Credential> = Vec::new();
    out.push(Credential { name: String::from_str("identifier"), value: identifier });
    out.push(Credential { name: String::from_str("password"), value: password });
    out
}

/// The result of a login that the API accepted.
pub fn login(project_id: &str) -> (r: LoginResult)
    ensures
        r.project_id@ == project_id@,
        r.success,
{
    LoginResult { project_id: String::from_str(project_id), success: true }
}

/// The status of a project, from what the client knows.
pub fn status(project_id: &str, authenticated: bool) -> (r: AuthStatus)
    ensures
        r.project_id@ == project_id@,
        r.authenticated == authenticated,
{
    AuthStatus { project_id: String::from_str(project_id), authenticated }
}

} // verus!
