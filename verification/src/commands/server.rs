//! The `server` command.

use vstd::prelude::*;
use vstd::string::*;
use crate::commands::{note, with_field};
use crate::config::BatchResult;
use crate::error::{Error, ErrorView};
use crate::ssh::ServerConfig;
use crate::text::{concat3, copy_opt_text, opt_text, opt_texts, same_text, texts};

verus! {

/// The arguments of the `server` command.
#[derive(Debug)]
pub struct ServerArgs {
    pub command: ServerCommand,
}

/// What the `server` command is asked to do.
#[derive(Debug)]
pub enum ServerCommand {
    Create {
        json: Option<String>,
        skip_existing: bool,
        name: Option<String>,
        host: Option<String>,
        user: Option<String>,
        port: Option<u16>,
    },
    Show { server_id: String },
    Edit {
        server_id: String,
        name: Option<String>,
        host: Option<String>,
        user: Option<String>,
        port: Option<u16>,
    },
    Delete { server_id: String, force: bool },
    List,
    Key(KeyArgs),
}

/// The arguments of `server key`.
#[derive(Debug)]
pub struct KeyArgs {
    pub command: KeyCommand,
}

/// What `server key` is asked to do.
#[derive(Debug)]
pub enum KeyCommand {
    Generate { server_id: String },
    Show { server_id: String },
    Import { server_id: String, private_key_path: String },
    Use { server_id: String, private_key_path: String },
    Unset { server_id: String },
}

/// What the `server` command reports.
#[derive(Debug)]
pub struct ServerOutput {
    pub command: String,
    pub server_id: Option<String>,
    pub server: Option<ServerConfig>,
    pub servers: Option<Vec<ServerConfig>>,
    pub updated: Option<Vec<String>>,
    pub deleted: Option<Vec<String>>,
    pub key: Option<ServerKeyOutput>,
    pub import: Option<BatchResult>,
}

/// What the `server` command reports of a key.
#[derive(Debug)]
pub struct ServerKeyOutput {
    pub action: String,
    pub server_id: String,
    pub public_key: Option<String>,
    pub identity_file: Option<String>,
    pub imported: Option<String>,
}

/// The port of a new server: 22 where none is given.
pub fn port_or_default(port: Option<u16>) -> (r: u16)
    ensures
        r == match port {
            Some(p) => p,
            None => 22u16,
        },
{
    match port {
        Some(p) => p,
        None => 22,
    }
}

/// A report with the name of a command and a server, and nothing else.
fn blank(command: &str, server_id: Option<&str>) -> (r: ServerOutput)
    ensures
        r.command@ == command@,
        opt_text(r.server_id) == crate::text::opt_str(server_id),
        r.server is None,
        r.servers is None,
        r.updated is None,
        r.deleted is None,
        r.key is None,
        r.import is None,
{
    ServerOutput {
        command: String::from_str(command),
        server_id: match server_id {
            Some(s) => Some(String::from_str(s)),
            None => None,
        },
        server: None,
        servers: None,
        updated: None,
        deleted: None,
        key: None,
        import: None,
    }
}

/// A list with one text.
fn one(word: &str) -> (r: Vec<String>)
    ensures
        texts(r@) == seq![word@],
{
    let mut out: Vec<String> = Vec::new();
    out.push(String::from_str(word));
    assert(texts(out@) =~= seq![word@]);
    out
}

/// The report of an import of servers; the exit code is 1 where a record was refused.
pub fn create_json(summary: BatchResult) -> (r: (ServerOutput, i32))
    ensures
        r.0.command@ == "server.create"@,
        r.0.server_id is None && r.0.server is None && r.0.servers is None && r.0.updated is None
            && r.0.deleted is None && r.0.key is None,
        r.0.import == Some(summary),
        r.1 == if summary.errors > 0 {
            1i32
        } else {
            0i32
        },
{
    let exit_code = if summary.errors > 0 {
        1
    } else {
        0
    };
    let mut out = blank("server.create", None);
    out.import = Some(summary);
    (out, exit_code)
}

/// The report of a server that was created.
pub fn create(server: ServerConfig) -> (r: (ServerOutput, i32))
    ensures
        r.0.command@ == "server.create"@,
        opt_text(r.0.server_id) == Some(server.id@),
        r.0.server == Some(server),
        opt_texts(r.0.updated) == Some(seq!["created"@]),
        r.0.servers is None && r.0.deleted is None && r.0.key is None && r.0.import is None,
        r.1 == 0,
{
    let mut out = blank("server.create", Some(server.id.as_str()));
    out.server = Some(server);
    out.updated = Some(one("created"));
    (out, 0)
}

/// The report of a server that is shown.
pub fn show(server: ServerConfig) -> (r: (ServerOutput, i32))
    ensures
        r.0.command@ == "server.show"@,
        opt_text(r.0.server_id) == Some(server.id@),
        r.0.server == Some(server),
        r.0.servers is None && r.0.updated is None && r.0.deleted is None && r.0.key is None
            && r.0.import is None,
        r.1 == 0,
{
    let mut out = blank("server.show", Some(server.id.as_str()));
    out.server = Some(server);
    (out, 0)
}

/// Whether a call of `set` names a change. One that names none is refused.
pub fn check_set(
    name: &Option<String>,
    host: &Option<String>,
    user: &Option<String>,
    port: Option<u16>,
) -> (r: Result<(), Error>)
    ensures
        name is None && host is None && user is None && port is None ==> r is Err && r->Err_0@
            == (ErrorView::Other { message: "No changes specified"@ }),
        name is Some || host is Some || user is Some || port is Some ==> r is Ok,
{
    if name.is_none() && host.is_none() && user.is_none() && port.is_none() {
        return Err(Error::Other { message: String::from_str("No changes specified") });
    }
    Ok(())
}

/// Sets the fields of a server that are given, and lists their names.
pub fn update(
    server: &mut ServerConfig,
    name: Option<String>,
    host: Option<String>,
    user: Option<String>,
    port: Option<u16>,
) -> (r: Vec<String>)
    ensures
        final(server).id == old(server).id,
        final(server).identity_file == old(server).identity_file,
        final(server).name == match name {
            Some(v) => v,
            None => old(server).name,
        },
        final(server).host == match host {
            Some(v) => v,
            None => old(server).host,
        },
        final(server).user == match user {
            Some(v) => v,
            None => old(server).user,
        },
        final(server).port == match port {
            Some(v) => v,
            None => old(server).port,
        },
        texts(r@) == with_field(
            with_field(
                with_field(with_field(Seq::empty(), name is Some, "name"@), host is Some, "host"@),
                user is Some,
                "user"@,
            ),
            port is Some,
            "port"@,
        ),
{
    let mut updated: Vec<String> = Vec::new();
    assert(texts(updated@) =~= Seq::<Seq<char>>::empty());
    match name {
        Some(v) => {
            server.name = v;
            note(&mut updated, "name");
        },
        None => {},
    }
    match host {
        Some(v) => {
            server.host = v;
            note(&mut updated, "host");
        },
        None => {},
    }
    match user {
        Some(v) => {
            server.user = v;
            note(&mut updated, "user");
        },
        None => {},
    }
    match port {
        Some(v) => {
            server.port = v;
            note(&mut updated, "port");
        },
        None => {},
    }
    updated
}

/// The report of a server that was changed.
pub fn set(server: ServerConfig, updated: Vec<String>) -> (r: (ServerOutput, i32))
    ensures
        r.0.command@ == "server.set"@,
        opt_text(r.0.server_id) == Some(server.id@),
        r.0.server == Some(server),
        r.0.updated == Some(updated),
        r.0.servers is None && r.0.deleted is None && r.0.key is None && r.0.import is None,
        r.1 == 0,
{
    let mut out = blank("server.set", Some(server.id.as_str()));
    out.server = Some(server);
    out.updated = Some(updated);
    (out, 0)
}

/// A project, as far as the server it is on goes.
#[derive(Debug)]
pub struct ProjectServer {
    pub id: String,
    pub server_id: Option<String>,
}

/// The first project that is on the server, where there is one.
pub open spec fn first_user(projects: Seq<ProjectServer>, server_id: Seq<char>) -> Option<Seq<char>>
    decreases projects.len(),
{
    if projects.len() == 0 {
        None
    } else if opt_text(projects[0].server_id) == Some(server_id) {
        Some(projects[0].id@)
    } else {
        first_user(projects.drop_first(), server_id)
    }
}

/// Why a server may not be deleted: the deletion is not confirmed, or a project is on the
/// server.
pub open spec fn delete_refusal(
    server_id: Seq<char>,
    force: bool,
    projects: Seq<ProjectServer>,
) -> Option<ErrorView> {
    if !force {
        Some(ErrorView::Other { message: "Use --force to confirm deletion"@ })
    } else {
        match first_user(projects, server_id) {
            Some(project) => Some(
                ErrorView::Other {
                    message: "Server is used by project '"@ + project
                        + "'. Update or delete the project first."@,
                },
            ),
            None => None,
        }
    }
}

/// Whether a server may be deleted.
pub fn check_delete(server_id: &str, force: bool, projects: &Vec<ProjectServer>) -> (r: Result<
    (),
    Error,
>)
    ensures
        match delete_refusal(server_id@, force, projects@) {
            Some(e) => r is Err && r->Err_0@ == e,
            None => r is Ok,
        },
{
    if !force {
        return Err(Error::Other { message: String::from_str("Use --force to confirm deletion") });
    }
    let mut i: usize = 0;
    assert(projects@.skip(0) =~= projects@);
    while i < projects.len()
        invariant
            i <= projects.len(),
            force,
            first_user(projects@, server_id@) == first_user(projects@.skip(i as int), server_id@),
        decreases projects.len() - i,
    {
        proof {
            assert(projects@.skip(i as int).drop_first() =~= projects@.skip(i + 1));
            assert(projects@.skip(i as int)[0] == projects@[i as int]);
        }
        let on_server = match &projects[i].server_id {
            Some(s) => same_text(s.as_str(), server_id),
            None => false,
        };
        assert(on_server == (opt_text(projects@[i as int].server_id) == Some(server_id@)));
        if on_server {
            return Err(
                Error::Other {
                    message: concat3(
                        "Server is used by project '",
                        projects[i].id.as_str(),
                        "'. Update or delete the project first.",
                    ),
                },
            );
        }
        i += 1;
    }
    Ok(())
}

/// The report of a server that was deleted.
pub fn delete(server_id: &str) -> (r: (ServerOutput, i32))
    ensures
        r.0.command@ == "server.delete"@,
        opt_text(r.0.server_id) == Some(server_id@),
        opt_texts(r.0.deleted) == Some(seq![server_id@]),
        r.0.server is None && r.0.servers is None && r.0.updated is None && r.0.key is None
            && r.0.import is None,
        r.1 == 0,
{
    let mut out = blank("server.delete", Some(server_id));
    out.deleted = Some(one(server_id));
    (out, 0)
}

/// The report of all servers.
pub fn list(servers: Vec<ServerConfig>) -> (r: (ServerOutput, i32))
    ensures
        r.0.command@ == "server.list"@,
        r.0.servers == Some(servers),
        r.0.server_id is None && r.0.server is None && r.0.updated is None && r.0.deleted is None
            && r.0.key is None && r.0.import is None,
        r.1 == 0,
{
    let mut out = blank("server.list", None);
    out.servers = Some(servers);
    (out, 0)
}

/// The report says what was done with the key of a server. Where the server is given, its
/// identity file was changed.
pub open spec fn tells_key(
    r: (ServerOutput, i32),
    action: Seq<char>,
    server_id: Seq<char>,
    server: Option<ServerConfig>,
    public_key: Option<String>,
    identity_file: Option<String>,
    imported: Option<String>,
) -> bool {
    &&& r.0.command@ == "server.key."@ + action
    &&& opt_text(r.0.server_id) == Some(server_id)
    &&& r.0.server == server
    &&& opt_texts(r.0.updated) == if server is Some {
        Some(seq!["identity_file"@])
    } else {
        None
    }
    &&& r.0.key is Some
    &&& r.0.key->Some_0.action@ == action
    &&& r.0.key->Some_0.server_id@ == server_id
    &&& r.0.key->Some_0.public_key == public_key
    &&& r.0.key->Some_0.identity_file == identity_file
    &&& r.0.key->Some_0.imported == imported
    &&& r.0.servers is None && r.0.deleted is None && r.0.import is None
    &&& r.1 == 0
}

/// The report of what was done with the key of a server.
pub fn key_report(
    action: &str,
    server_id: &str,
    server: Option<ServerConfig>,
    public_key: Option<String>,
    identity_file: Option<String>,
    imported: Option<String>,
) -> (r: (ServerOutput, i32))
    ensures
        tells_key(r, action@, server_id@, server, public_key, identity_file, imported),
{
    let command = crate::text::concat("server.key.", action);
    let mut out = blank(command.as_str(), Some(server_id));
    if server.is_some() {
        out.updated = Some(one("identity_file"));
    }
    out.server = server;
    out.key = Some(
        ServerKeyOutput {
            action: String::from_str(action),
            server_id: String::from_str(server_id),
            public_key,
            identity_file,
            imported,
        },
    );
    (out, 0)
}

/// The report of a key that was made for a server.
pub fn key_generate(server_id: &str, server: ServerConfig, public_key: String, identity_file: String) -> (r:
    (ServerOutput, i32))
    ensures
        tells_key(
            r,
            "generate"@,
            server_id@,
            Some(server),
            Some(public_key),
            Some(identity_file),
            None,
        ),
{
    key_report("generate", server_id, Some(server), Some(public_key), Some(identity_file), None)
}

/// The report of the public key of a server.
pub fn key_show(server_id: &str, public_key: String) -> (r: (ServerOutput, i32))
    ensures
        tells_key(r, "show"@, server_id@, None, Some(public_key), None, None),
{
    key_report("show", server_id, None, Some(public_key), None, None)
}

/// The report of a key that was copied from a file for a server.
pub fn key_import(
    server_id: &str,
    server: ServerConfig,
    public_key: String,
    identity_file: String,
    imported_from: String,
) -> (r: (ServerOutput, i32))
    ensures
        tells_key(
            r,
            "import"@,
            server_id@,
            Some(server),
            Some(public_key),
            Some(identity_file),
            Some(imported_from),
        ),
{
    key_report(
        "import",
        server_id,
        Some(server),
        Some(public_key),
        Some(identity_file),
        Some(imported_from),
    )
}

/// The report of a key file that a server was told to use: the identity file is the one
/// that the server now names.
pub fn key_use(server_id: &str, server: ServerConfig) -> (r: (ServerOutput, i32))
    ensures
        tells_key(r, "use"@, server_id@, Some(server), None, r.0.key->Some_0.identity_file, None),
        opt_text(r.0.key->Some_0.identity_file) == opt_text(server.identity_file),
{
    let identity_file = copy_opt_text(&server.identity_file);
    key_report("use", server_id, Some(server), None, identity_file, None)
}

/// The report of a server that was told to use no key file.
pub fn key_unset(server_id: &str, server: ServerConfig) -> (r: (ServerOutput, i32))
    ensures
        tells_key(r, "unset"@, server_id@, Some(server), None, None, None),
{
    key_report("unset", server_id, Some(server), None, None, None)
}

} // verus!
