//! The `changelog` command.

use vstd::prelude::*;
use vstd::string::*;
use crate::error::{Error, ErrorView};
use crate::text::texts;

verus! {

/// The arguments of the `changelog` command.
#[derive(Debug)]
pub struct ChangelogArgs {
    /// Show the changelog of the tool itself.
    pub show_self: bool,
    pub command: Option<ChangelogCommand>,
}

/// What the `changelog` command is asked to do.
#[derive(Debug)]
pub enum ChangelogCommand {
    /// Add items to the next section of a component's changelog.
    Add { cwd: bool, json: Option<String>, component_id: Option<String>, message: Option<String> },
    /// Start a changelog for a component.
    Init { cwd: bool, path: Option<String>, configure: bool, component_id: Option<String> },
}

/// The changelog of the tool itself.
#[derive(Debug)]
pub struct ChangelogShowOutput {
    pub topic_label: String,
    pub content: String,
}

/// What the `changelog` command reports. What was added or started is kept as JSON text.
#[derive(Debug)]
pub enum ChangelogOutput {
    Show(ChangelogShowOutput),
    Add(String),
    Init(String),
}

/// The command shows the changelog of the tool itself.
pub open spec fn shows_self(args: ChangelogArgs) -> bool {
    args.command is None && args.show_self
}

/// Whether the command shows the changelog of the tool itself.
pub fn is_show_markdown(args: &ChangelogArgs) -> (r: bool)
    ensures
        r == shows_self(*args),
{
    args.command.is_none() && args.show_self
}

/// The error for a call without a subcommand.
pub open spec fn no_subcommand() -> ErrorView {
    ErrorView::InvalidArgument {
        field: "command"@,
        message: "No subcommand provided. Use a subcommand (add, init) or --self to view Homeboy's changelog"@,
        given: None,
        tried: Some(
            seq![
                "homeboy changelog add <component_id> <message>"@,
                "homeboy changelog init <component_id>"@,
                "homeboy changelog --self"@,
            ],
        ),
    }
}

/// The error for a subcommand that cannot be shown as markdown.
pub open spec fn markdown_unsupported() -> ErrorView {
    ErrorView::InvalidArgument {
        field: "command"@,
        message: "Markdown output is only supported for 'changelog --self'"@,
        given: None,
        tried: None,
    }
}

/// What the command shows as markdown: the changelog of the tool where that is asked for;
/// a subcommand has no markdown, and neither has a call without one.
pub open spec fn markdown_of(args: ChangelogArgs, changelog: Seq<char>) -> Result<
    (Seq<char>, i32),
    ErrorView,
> {
    if args.command is Some {
        Err(markdown_unsupported())
    } else if args.show_self {
        Ok((changelog, 0i32))
    } else {
        Err(no_subcommand())
    }
}

/// What a markdown command returned, with its strings as texts.
pub open spec fn markdown_view(r: Result<(String, i32), Error>) -> Result<
    (Seq<char>, i32),
    ErrorView,
> {
    match r {
        Ok((s, code)) => Ok((s@, code)),
        Err(e) => Err(e@),
    }
}

/// The error for a call without a subcommand.
fn missing_subcommand() -> (r: Error)
    ensures
        r@ == no_subcommand(),
{
    let mut tried: Vec<String> = Vec::new();
    tried.push(String::from_str("homeboy changelog add <component_id> <message>"));
    tried.push(String::from_str("homeboy changelog init <component_id>"));
    tried.push(String::from_str("homeboy changelog --self"));
    assert(texts(tried@) =~= seq![
        "homeboy changelog add <component_id> <message>"@,
        "homeboy changelog init <component_id>"@,
        "homeboy changelog --self"@,
    ]);
    Error::InvalidArgument {
        field: String::from_str("command"),
        message: String::from_str(
            "No subcommand provided. Use a subcommand (add, init) or --self to view Homeboy's changelog",
        ),
        given: None,
        tried: Some(tried),
    }
}

/// Shows the changelog of the tool as markdown, where the arguments ask for it.
pub fn run_markdown(args: &ChangelogArgs, changelog: &str) -> (r: Result<(String, i32), Error>)
    ensures
        markdown_view(r) == markdown_of(*args, changelog@),
{
    if args.command.is_some() {
        return Err(
            Error::InvalidArgument {
                field: String::from_str("command"),
                message: String::from_str(
                    "Markdown output is only supported for 'changelog --self'",
                ),
                given: None,
                tried: None,
            },
        );
    }
    if args.show_self {
        Ok(show_markdown(changelog))
    } else {
        Err(missing_subcommand())
    }
}

/// The changelog of the tool as markdown.
pub fn show_markdown(changelog: &str) -> (r: (String, i32))
    ensures
        r.0@ == changelog@,
        r.1 == 0,
{
    (String::from_str(changelog), 0)
}

/// The changelog of the tool as a report.
pub fn show_json(changelog: &str) -> (r: (ChangelogShowOutput, i32))
    ensures
        r.0.topic_label@ == "changelog"@,
        r.0.content@ == changelog@,
        r.1 == 0,
{
    (
        ChangelogShowOutput {
            topic_label: String::from_str("changelog"),
            content: String::from_str(changelog),
        },
        0,
    )
}

/// What adding items to a changelog goes by.
#[derive(Clone, Copy, Debug, PartialEq, Eq, Structural)]
pub enum AddMode {
    /// The repository in the working directory.
    Cwd,
    /// The JSON spec.
    Bulk,
    /// The component and the messages.
    Component,
}

/// What adding goes by: the working directory where asked for, else the JSON spec where
/// one is given, else the component.
pub fn add_mode(cwd: bool, json: &Option<String>) -> (r: AddMode)
    ensures
        r == if cwd {
            AddMode::Cwd
        } else if *json is Some {
            AddMode::Bulk
        } else {
            AddMode::Component
        },
{
    if cwd {
        AddMode::Cwd
    } else if json.is_some() {
        AddMode::Bulk
    } else {
        AddMode::Component
    }
}

} // verus!
