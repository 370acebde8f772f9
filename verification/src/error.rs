//! The errors that the library reports.

use vstd::prelude::*;
use vstd::string::*;
use crate::text::{concat, concat3, join, joined, opt_text, opt_texts, texts};

verus! {

/// What went wrong, with the values needed to say so.
#[derive(Debug)]
pub enum Error {
    /// Two steps of one list share an id.
    DuplicateStepId { field: String, id: String },
    /// A step names a dependency that no step of the list has as its id.
    UnknownDependency { field: String, step_id: String, need: String },
    /// The steps wait for each other in a circle; `pending` holds the ids that cannot start.
    DependencyCycle { field: String, pending: Vec<String> },
    /// The component has no release configuration.
    MissingReleaseConfig { component_id: String },
    /// A configured module is not installed.
    ModuleNotFound { id: String, suggestions: Vec<String> },
    /// A module was named on the command line; modules come from the component alone.
    ModuleSelectionUnsupported,
    /// No module offers the action.
    NoMatchingModule { action_id: String },
    /// More than one module offers the action.
    AmbiguousModule { action_id: String, modules: Vec<String> },
    /// A step type that is reserved for the engine but has no handler.
    UnsupportedCoreStep { step_type: String },
    /// An argument was refused.
    InvalidArgument {
        field: String,
        message: String,
        given: Option<String>,
        tried: Option<Vec<String>>,
    },
    /// A configuration key is missing.
    MissingKey { key: String },
    /// A configuration value cannot be used.
    InvalidValue { key: String, value: Option<String>, problem: String },
    /// A value could not be read or written as JSON.
    InvalidJson { message: String, context: String },
    /// A record of another kind has the id already.
    IdCollision { id: String, saving: String, existing: String },
    /// The configuration cannot be used as it is.
    Config { message: String },
    /// A connection to a server cannot be set up.
    Ssh { message: String },
    /// A command on a remote machine failed.
    Remote { command: String, exit_code: i32, stderr: String },
    /// Anything else, as reported by a collaborator.
    Other { message: String },
}

/// An error with its strings as texts.
pub enum ErrorView {
    DuplicateStepId { field: Seq<char>, id: Seq<char> },
    UnknownDependency { field: Seq<char>, step_id: Seq<char>, need: Seq<char> },
    DependencyCycle { field: Seq<char>, pending: Seq<Seq<char>> },
    MissingReleaseConfig { component_id: Seq<char> },
    ModuleNotFound { id: Seq<char>, suggestions: Seq<Seq<char>> },
    ModuleSelectionUnsupported,
    NoMatchingModule { action_id: Seq<char> },
    AmbiguousModule { action_id: Seq<char>, modules: Seq<Seq<char>> },
    UnsupportedCoreStep { step_type: Seq<char> },
    InvalidArgument {
        field: Seq<char>,
        message: Seq<char>,
        given: Option<Seq<char>>,
        tried: Option<Seq<Seq<char>>>,
    },
    MissingKey { key: Seq<char> },
    InvalidValue { key: Seq<char>, value: Option<Seq<char>>, problem: Seq<char> },
    InvalidJson { message: Seq<char>, context: Seq<char> },
    IdCollision { id: Seq<char>, saving: Seq<char>, existing: Seq<char> },
    Config { message: Seq<char> },
    Ssh { message: Seq<char> },
    Remote { command: Seq<char>, exit_code: i32, stderr: Seq<char> },
    Other { message: Seq<char> },
}

impl View for Error {
    type V = ErrorView;

    open spec fn view(&self) -> ErrorView {
        match *self {
            Error::DuplicateStepId { field, id } => ErrorView::DuplicateStepId {
                field: field@,
                id: id@,
            },
            Error::UnknownDependency { field, step_id, need } => ErrorView::UnknownDependency {
                field: field@,
                step_id: step_id@,
                need: need@,
            },
            Error::DependencyCycle { field, pending } => ErrorView::DependencyCycle {
                field: field@,
                pending: texts(pending@),
            },
            Error::MissingReleaseConfig { component_id } => ErrorView::MissingReleaseConfig {
                component_id: component_id@,
            },
            Error::ModuleNotFound { id, suggestions } => ErrorView::ModuleNotFound {
                id: id@,
                suggestions: texts(suggestions@),
            },
            Error::ModuleSelectionUnsupported => ErrorView::ModuleSelectionUnsupported,
            Error::NoMatchingModule { action_id } => ErrorView::NoMatchingModule {
                action_id: action_id@,
            },
            Error::AmbiguousModule { action_id, modules } => ErrorView::AmbiguousModule {
                action_id: action_id@,
                modules: texts(modules@),
            },
            Error::UnsupportedCoreStep { step_type } => ErrorView::UnsupportedCoreStep {
                step_type: step_type@,
            },
            Error::InvalidArgument { field, message, given, tried } => ErrorView::InvalidArgument {
                field: field@,
                message: message@,
                given: opt_text(given),
                tried: opt_texts(tried),
            },
            Error::MissingKey { key } => ErrorView::MissingKey { key: key@ },
            Error::InvalidValue { key, value, problem } => ErrorView::InvalidValue {
                key: key@,
                value: opt_text(value),
                problem: problem@,
            },
            Error::InvalidJson { message, context } => ErrorView::InvalidJson {
                message: message@,
                context: context@,
            },
            Error::IdCollision { id, saving, existing } => ErrorView::IdCollision {
                id: id@,
                saving: saving@,
                existing: existing@,
            },
            Error::Config { message } => ErrorView::Config { message: message@ },
            Error::Ssh { message } => ErrorView::Ssh { message: message@ },
            Error::Remote { command, exit_code, stderr } => ErrorView::Remote {
                command: command@,
                exit_code,
                stderr: stderr@,
            },
            Error::Other { message } => ErrorView::Other { message: message@ },
        }
    }
}

/// What a function that gives a text or an error returned, with its strings as texts.
pub open spec fn text_result(r: Result<String, Error>) -> Result<Seq<char>, ErrorView> {
    match r {
        Ok(s) => Ok(s@),
        Err(e) => Err(e@),
    }
}

/// The sentence that tells a person what went wrong.
pub open spec fn message_text(e: ErrorView) -> Seq<char> {
    match e {
        ErrorView::DuplicateStepId { field, id } => "Duplicate step id '"@ + id + "'"@,
        ErrorView::UnknownDependency { field, step_id, need } => "Step '"@ + step_id
            + "' depends on unknown step '"@ + need + "'"@,
        ErrorView::DependencyCycle { field, pending } => "Steps contain a cycle"@,
        ErrorView::MissingReleaseConfig { component_id } => "Release configuration is missing"@,
        ErrorView::ModuleNotFound { id, suggestions } => "Module '"@ + id + "' not found"@,
        ErrorView::ModuleSelectionUnsupported =>
            "Module selection is configured via component.modules; --module is not supported"@,
        ErrorView::NoMatchingModule { action_id } => "Missing module action '"@ + action_id + "'"@,
        ErrorView::AmbiguousModule { action_id, modules } => "Multiple modules provide action '"@
            + action_id + "' ("@ + joined(modules, ", "@) + ")"@,
        ErrorView::UnsupportedCoreStep { step_type } => "Unsupported core step '"@ + step_type
            + "'"@,
        ErrorView::InvalidArgument { field, message, given, tried } => message,
        ErrorView::MissingKey { key } => "Missing configuration key '"@ + key + "'"@,
        ErrorView::InvalidValue { key, value, problem } => problem,
        ErrorView::InvalidJson { message, context } => message,
        ErrorView::IdCollision { id, saving, existing } => "Cannot save "@ + saving + " '"@ + id
            + "': the id is taken by a "@ + existing,
        ErrorView::Config { message } => message,
        ErrorView::Ssh { message } => message,
        ErrorView::Remote { command, exit_code, stderr } => "Remote command failed: "@ + stderr,
        ErrorView::Other { message } => message,
    }
}

/// What a person can do about the error.
pub open spec fn hint_texts(e: ErrorView) -> Seq<Seq<char>> {
    match e {
        ErrorView::MissingReleaseConfig { component_id } => seq![
            "Use 'homeboy component set "@ + component_id + " --json' to add a release block"@,
            "See 'homeboy docs commands/release' for examples"@,
        ],
        _ => Seq::empty(),
    }
}

impl Error {
    /// What a person can do about the error.
    pub fn hints(&self) -> (r: Vec<String>)
        ensures
            texts(r@) == hint_texts(self@),
    {
        let mut out: Vec<String> = Vec::new();
        match self {
            Error::MissingReleaseConfig { component_id } => {
                out.push(
                    concat3(
                        "Use 'homeboy component set ",
                        component_id.as_str(),
                        " --json' to add a release block",
                    ),
                );
                out.push(String::from_str("See 'homeboy docs commands/release' for examples"));
                assert(texts(out@) =~= hint_texts(self@));
            },
            _ => {
                assert(texts(out@) =~= hint_texts(self@));
            },
        }
        out
    }

    /// The sentence that tells a person what went wrong.
    pub fn message(&self) -> (r: String)
        ensures
            r@ == message_text(self@),
    {
        match self {
            Error::DuplicateStepId { field, id } => concat3("Duplicate step id '", id.as_str(), "'"),
            Error::UnknownDependency { field, step_id, need } => {
                let mut out = concat3("Step '", step_id.as_str(), "' depends on unknown step '");
                out.append(need.as_str());
                out.append("'");
                out
            },
            Error::DependencyCycle { field, pending } => String::from_str("Steps contain a cycle"),
            Error::MissingReleaseConfig { component_id } => String::from_str(
                "Release configuration is missing",
            ),
            Error::ModuleNotFound { id, suggestions } => concat3(
                "Module '",
                id.as_str(),
                "' not found",
            ),
            Error::ModuleSelectionUnsupported => String::from_str(
                "Module selection is configured via component.modules; --module is not supported",
            ),
            Error::NoMatchingModule { action_id } => concat3(
                "Missing module action '",
                action_id.as_str(),
                "'",
            ),
            Error::AmbiguousModule { action_id, modules } => {
                let mut out = concat3(
                    "Multiple modules provide action '",
                    action_id.as_str(),
                    "' (",
                );
                let names = join(modules, ", ");
                out.append(names.as_str());
                out.append(")");
                out
            },
            Error::UnsupportedCoreStep { step_type } => concat3(
                "Unsupported core step '",
                step_type.as_str(),
                "'",
            ),
            Error::InvalidArgument { field, message, given, tried } => message.clone(),
            Error::MissingKey { key } => concat3("Missing configuration key '", key.as_str(), "'"),
            Error::InvalidValue { key, value, problem } => problem.clone(),
            Error::InvalidJson { message, context } => message.clone(),
            Error::IdCollision { id, saving, existing } => {
                let mut out = concat3("Cannot save ", saving.as_str(), " '");
                out.append(id.as_str());
                out.append("': the id is taken by a ");
                out.append(existing.as_str());
                out
            },
            Error::Config { message } => message.clone(),
            Error::Ssh { message } => message.clone(),
            Error::Remote { command, exit_code, stderr } => concat(
                "Remote command failed: ",
                stderr.as_str(),
            ),
            Error::Other { message } => message.clone(),
        }
    }
}

} // verus!
