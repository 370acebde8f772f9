//! Connections to servers: how the client is told whom to reach, and what came back.

use vstd::prelude::*;
use vstd::string::*;
use crate::error::{Error, ErrorView};
use crate::numbers::{decimal, format_u16};
use crate::split::has_suffix;
use crate::text::{concat, concat3, texts};

verus! {

/// What a command printed and how it ended.
#[derive(Debug)]
pub struct CommandOutput {
    pub stdout: String,
    pub stderr: String,
    pub success: bool,
    pub exit_code: i32,
}

/// A server as it is configured.
#[derive(Debug)]
pub struct ServerConfig {
    pub id: String,
    pub name: String,
    pub host: String,
    pub user: String,
    pub port: u16,
    pub identity_file: Option<String>,
}

/// Whom to reach, and as whom.
#[derive(Debug)]
pub struct SshClient {
    pub host: String,
    pub user: String,
    pub port: u16,
    pub identity_file: Option<String>,
}

/// The path starts with a tilde that stands alone or before a separator.
pub open spec fn tilde_led(path: Seq<char>) -> bool {
    path.len() > 0 && path[0] == '~' && (path.len() == 1 || path[1] == '/' || path[1] == '\\')
}

/// `r` is `path` with the home directory of the user in the place of a leading tilde, as far
/// as that can be said without knowing the directory.
pub open spec fn tilde_expanded(path: Seq<char>, r: Seq<char>) -> bool {
    if tilde_led(path) {
        has_suffix(r, path.drop_first())
    } else {
        r == path
    }
}

/// Calls `shellexpand::tilde`, which puts the home directory of the user in the place of a
/// leading tilde. A path that does not start with a tilde before a separator comes back as
/// it is; of any other only the part behind the tilde is known to be kept.
#[verifier::external_body]
pub(crate) fn expand_tilde(path: &str) -> (r: String)
    ensures
        tilde_expanded(path@, r@),
{
    shellexpand::tilde(path).to_string()
}

/// The identity file of the server with its tilde expanded, where one is configured.
pub fn expanded_identity_file(server: &ServerConfig) -> (r: Option<String>)
    ensures
        r is Some <==> (server.identity_file is Some && server.identity_file->Some_0@.len() > 0),
        r is Some ==> tilde_expanded(server.identity_file->Some_0@, r->Some_0@),
{
    match &server.identity_file {
        Some(path) => {
            if path.as_str().unicode_len() == 0 {
                None
            } else {
                Some(expand_tilde(path.as_str()))
            }
        },
        None => None,
    }
}

/// The message for an identity file that is not there.
pub open spec fn identity_missing(server_id: Seq<char>, path: Seq<char>) -> Seq<char> {
    "SSH identity file not found for server '"@ + server_id + "': "@ + path
}

impl SshClient {
    /// The client for a server. `identity` is the server's identity file with its tilde
    /// expanded, and whether the file is there; a file that is not there is refused.
    pub fn from_server(server: &ServerConfig, server_id: &str, identity: Option<(String, bool)>) -> (r:
        Result<SshClient, Error>)
        ensures
            match identity {
                Some((path, false)) => r is Err && r->Err_0@ == (ErrorView::Ssh {
                    message: identity_missing(server_id@, path@),
                }),
                Some((path, true)) => r is Ok && r->Ok_0.identity_file == Some(path),
                None => r is Ok && r->Ok_0.identity_file is None,
            },
            r is Ok ==> r->Ok_0.host@ == server.host@ && r->Ok_0.user@ == server.user@
                && r->Ok_0.port == server.port,
    {
        let identity_file = match identity {
            Some((path, found)) => {
                if !found {
                    let mut message = concat3(
                        "SSH identity file not found for server '",
                        server_id,
                        "': ",
                    );
                    message.append(path.as_str());
                    return Err(Error::Ssh { message });
                }
                Some(path)
            },
            None => None,
        };
        Ok(
            SshClient {
                host: server.host.clone(),
                user: server.user.clone(),
                port: server.port,
                identity_file,
            },
        )
    }

    /// The arguments that tell the identity file.
    pub open spec fn identity_args(self) -> Seq<Seq<char>> {
        match self.identity_file {
            Some(file) => seq!["-i"@, file@],
            None => Seq::empty(),
        }
    }

    /// The arguments that tell the port with the given flag, where it is not 22.
    pub open spec fn port_args(self, flag: Seq<char>) -> Seq<Seq<char>> {
        if self.port != 22 {
            seq![flag, decimal(self.port as nat)]
        } else {
            Seq::empty()
        }
    }

    /// The user and the host, as `ssh` wants them.
    pub open spec fn destination(self) -> Seq<char> {
        self.user@ + "@"@ + self.host@
    }

    /// The arguments of `ssh` for a command, or for a shell where there is none.
    pub open spec fn ssh_args(self, command: Option<Seq<char>>) -> Seq<Seq<char>> {
        let head = self.identity_args() + self.port_args("-p"@) + seq![self.destination()];
        match command {
            Some(c) => head.push(c),
            None => head,
        }
    }

    /// The arguments of `scp` that copy a local file to a path on the server.
    pub open spec fn scp_args(self, local_path: Seq<char>, remote_path: Seq<char>) -> Seq<Seq<char>> {
        self.identity_args() + self.port_args("-P"@) + seq![
            local_path,
            self.destination() + ":"@ + remote_path,
        ]
    }

    /// The arguments that every call shares: the identity file and the port.
    pub(crate) fn connection_args(&self, port_flag: &str) -> (r: Vec<String>)
        ensures
            texts(r@) == self.identity_args() + self.port_args(port_flag@),
    {
        let mut args: Vec<String> = Vec::new();
        match &self.identity_file {
            Some(file) => {
                args.push(String::from_str("-i"));
                args.push(file.clone());
            },
            None => {},
        }
        assert(texts(args@) =~= self.identity_args());
        if self.port != 22 {
            let ghost before = texts(args@);
            args.push(String::from_str(port_flag));
            args.push(format_u16(self.port));
            assert(texts(args@) =~= before + self.port_args(port_flag@));
        } else {
            assert(texts(args@) + self.port_args(port_flag@) =~= texts(args@));
        }
        args
    }

    /// The arguments of `ssh` that run the command on the server.
    pub fn execute_args(&self, command: &str) -> (r: Vec<String>)
        ensures
            texts(r@) == self.ssh_args(Some(command@)),
    {
        let mut args = self.connection_args("-p");
        let ghost before = texts(args@);
        args.push(concat3(self.user.as_str(), "@", self.host.as_str()));
        args.push(String::from_str(command));
        assert(texts(args@) =~= (before + seq![self.destination()]).push(command@));
        args
    }

    /// The arguments of `ssh` for a session at the terminal: a shell, or the command.
    pub fn interactive_args(&self, command: Option<&str>) -> (r: Vec<String>)
        ensures
            texts(r@) == self.ssh_args(
                match command {
                    Some(c) => Some(c@),
                    None => None,
                },
            ),
    {
        let mut args = self.connection_args("-p");
        let ghost before = texts(args@);
        args.push(concat3(self.user.as_str(), "@", self.host.as_str()));
        assert(texts(args@) =~= before + seq![self.destination()]);
        match command {
            Some(c) => {
                let ghost head = texts(args@);
                args.push(String::from_str(c));
                assert(texts(args@) =~= head.push(c@));
            },
            None => {},
        }
        args
    }

    /// The arguments of `scp` that copy a local file to a path on the server.
    pub fn copy_args(&self, local_path: &str, remote_path: &str) -> (r: Vec<String>)
        ensures
            texts(r@) == self.scp_args(local_path@, remote_path@),
    {
        let mut args = self.connection_args("-P");
        let ghost before = texts(args@);
        args.push(String::from_str(local_path));
        let mut target = concat3(self.user.as_str(), "@", self.host.as_str());
        target.append(":");
        target.append(remote_path);
        args.push(target);
        assert(texts(args@) =~= before + seq![
            local_path@,
            self.destination() + ":"@ + remote_path@,
        ]);
        args
    }
}

/// What is reported of a command that was run: what it printed and how it ended, with -1
/// where it was ended from outside.
pub fn finished(stdout: String, stderr: String, success: bool, code: Option<i32>) -> (r:
    CommandOutput)
    ensures
        r.stdout == stdout,
        r.stderr == stderr,
        r.success == success,
        r.exit_code == match code {
            Some(c) => c,
            None => -1i32,
        },
{
    let exit_code = match code {
        Some(c) => c,
        None => -1,
    };
    CommandOutput { stdout, stderr, success, exit_code }
}

/// What is reported of a command that could not be started.
pub fn not_started(prefix: &str, reason: &str) -> (r: CommandOutput)
    ensures
        r.stdout@.len() == 0,
        r.stderr@ == prefix@ + reason@,
        !r.success,
        r.exit_code == -1,
{
    CommandOutput {
        stdout: String::new(),
        stderr: concat(prefix, reason),
        success: false,
        exit_code: -1,
    }
}

} // verus!
