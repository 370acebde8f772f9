//! The `git` command.

use vstd::prelude::*;
use vstd::string::*;
use crate::error::{Error, ErrorView};
use crate::json::BulkResult;
use crate::text::{concat, first_char, opt_text, same_text, trim, trimmed};

verus! {

/// The arguments of the `git` command.
#[derive(Debug)]
pub struct GitArgs {
    pub command: GitCommand,
}

/// What the `git` command is asked to do.
#[derive(Debug)]
pub enum GitCommand {
    Status { cwd: bool, json: Option<String>, component_id: Option<String> },
    Commit {
        cwd: bool,
        component_id: Option<String>,
        spec: Option<String>,
        json: Option<String>,
        message: Option<String>,
        staged_only: bool,
        files: Option<Vec<String>>,
        exclude: Option<Vec<String>>,
    },
    Push { cwd: bool, json: Option<String>, component_id: Option<String>, tags: bool },
    Pull { cwd: bool, json: Option<String>, component_id: Option<String> },
    Tag {
        cwd: bool,
        component_id: Option<String>,
        tag_name: Option<String>,
        message: Option<String>,
    },
}

/// What a commit goes by.
#[derive(Debug)]
pub enum CommitMode {
    /// The JSON spec.
    Json(String),
    /// The message, where there is one, and the flags.
    Flags(Option<String>),
}

pub enum CommitModeView {
    Json(Seq<char>),
    Flags(Option<Seq<char>>),
}

impl View for CommitMode {
    type V = CommitModeView;

    open spec fn view(&self) -> CommitModeView {
        match *self {
            CommitMode::Json(s) => CommitModeView::Json(s@),
            CommitMode::Flags(m) => CommitModeView::Flags(opt_text(m)),
        }
    }
}

/// The text looks like a JSON spec rather than a message: it opens with a brace, a bracket
/// or an `@`, or it is a single dash.
pub open spec fn looks_like_json(s: Seq<char>) -> bool {
    let t = trimmed(s);
    (t.len() > 0 && (t[0] == '{' || t[0] == '[' || t[0] == '@')) || t == "-"@
}

/// Whether the text looks like a JSON spec rather than a message.
pub fn is_json_spec(s: &str) -> (r: bool)
    ensures
        r == looks_like_json(s@),
{
    let t = trim(s);
    match first_char(t) {
        Some(c) => c == '{' || c == '[' || c == '@' || same_text(t, "-"),
        None => {
            proof {
                reveal_strlit("-");
            }
            false
        },
    }
}

/// The spec that a commit is given by position: where the working directory is asked for
/// and only one text is given, that text, which then stands in the place of the component.
pub open spec fn effective_spec(
    cwd: bool,
    component_id: Option<Seq<char>>,
    spec: Option<Seq<char>>,
) -> Option<Seq<char>> {
    if cwd && component_id is Some && spec is None {
        component_id
    } else {
        spec
    }
}

/// What a commit goes by: the JSON spec given by flag; else the text given by position
/// where it looks like JSON; else that text as the message, or the message given by flag.
pub open spec fn commit_mode_of(
    cwd: bool,
    component_id: Option<Seq<char>>,
    spec: Option<Seq<char>>,
    json: Option<Seq<char>>,
    message: Option<Seq<char>>,
) -> CommitModeView {
    match json {
        Some(j) => CommitModeView::Json(j),
        None => match effective_spec(cwd, component_id, spec) {
            Some(s) => if looks_like_json(s) {
                CommitModeView::Json(s)
            } else {
                CommitModeView::Flags(Some(s))
            },
            None => CommitModeView::Flags(message),
        },
    }
}

/// Says what a commit goes by.
pub fn commit_mode(
    cwd: bool,
    component_id: &Option<String>,
    spec: Option<String>,
    json: Option<String>,
    message: Option<String>,
) -> (r: CommitMode)
    ensures
        r@ == commit_mode_of(
            cwd,
            opt_text(*component_id),
            opt_text(spec),
            opt_text(json),
            opt_text(message),
        ),
{
    match json {
        Some(j) => {
            return CommitMode::Json(j);
        },
        None => {},
    }
    let effective = if cwd && component_id.is_some() && spec.is_none() {
        match component_id {
            Some(c) => Some(c.clone()),
            None => None,
        }
    } else {
        spec
    };
    match effective {
        Some(s) => {
            if is_json_spec(s.as_str()) {
                CommitMode::Json(s)
            } else {
                CommitMode::Flags(Some(s))
            }
        },
        None => CommitMode::Flags(message),
    }
}

/// The component that a command works on: none where the working directory is asked for.
pub fn target<'a>(cwd: bool, component_id: &'a Option<String>) -> (r: Option<&'a str>)
    ensures
        crate::text::opt_str(r) == if cwd {
            None
        } else {
            opt_text(*component_id)
        },
{
    if cwd {
        None
    } else {
        match component_id {
            Some(c) => Some(c.as_str()),
            None => None,
        }
    }
}

/// What git did in one repository.
#[derive(Debug)]
pub struct GitOutput {
    pub component_id: String,
    pub path: String,
    pub action: String,
    pub success: bool,
    pub exit_code: i32,
    pub stdout: String,
    pub stderr: String,
}

/// What the `git` command reports: of one repository, or of each of a list.
#[derive(Debug)]
pub enum GitCommandOutput {
    Single(GitOutput),
    Bulk(BulkResult<GitOutput>),
}

/// The report of one repository; the command ends as git did.
pub fn single(output: GitOutput) -> (r: (GitCommandOutput, i32))
    ensures
        r.0 == GitCommandOutput::Single(output),
        r.1 == output.exit_code,
{
    let code = output.exit_code;
    (GitCommandOutput::Single(output), code)
}

/// The report of a list of repositories; the command ends with 1 where one of them failed.
pub fn bulk(output: BulkResult<GitOutput>) -> (r: (GitCommandOutput, i32))
    ensures
        r.0 == GitCommandOutput::Bulk(output),
        r.1 == if output.summary.failed > 0 {
            1i32
        } else {
            0i32
        },
{
    let code = bulk_exit_code(output.summary.failed);
    (GitCommandOutput::Bulk(output), code)
}

/// The exit code of a bulk operation: 1 where an item failed.
pub fn bulk_exit_code(failed: usize) -> (r: i32)
    ensures
        r == if failed > 0 {
            1i32
        } else {
            0i32
        },
{
    if failed > 0 {
        1
    } else {
        0
    }
}

/// The error for a tag that is to be made from the version of a component that is not
/// named.
pub open spec fn component_required() -> ErrorView {
    ErrorView::InvalidArgument {
        field: "componentId"@,
        message: "Missing componentId (required to derive tag from version)"@,
        given: None,
        tried: None,
    }
}

/// Where the name of a tag comes from.
#[derive(Debug)]
pub enum TagSource {
    /// The name is given.
    Given(String),
    /// The name is `v` and the version of the component.
    Version(String),
}

/// Says where the name of a tag comes from: it is given, or it is made from the version of
/// the component, which then must be named.
pub fn tag_source(tag_name: Option<String>, component_id: &Option<String>) -> (r: Result<
    TagSource,
    Error,
>)
    ensures
        match (tag_name, *component_id) {
            (Some(name), _) => r is Ok && r->Ok_0 == TagSource::Given(name),
            (None, Some(id)) => r is Ok && (r->Ok_0 matches TagSource::Version(c) && c@ == id@),
            (None, None) => r is Err && r->Err_0@ == component_required(),
        },
{
    match tag_name {
        Some(name) => Ok(TagSource::Given(name)),
        None => match component_id {
            Some(id) => Ok(TagSource::Version(id.clone())),
            None => Err(
                Error::InvalidArgument {
                    field: String::from_str("componentId"),
                    message: String::from_str(
                        "Missing componentId (required to derive tag from version)",
                    ),
                    given: None,
                    tried: None,
                },
            ),
        },
    }
}

/// The name of the tag for a version.
pub fn version_tag(version: &str) -> (r: String)
    ensures
        r@ == "v"@ + version@,
{
    concat("v", version)
}

} // verus!
