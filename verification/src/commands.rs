//! What the commands of the command line tool are given, and what they report.

use vstd::prelude::*;
use vstd::string::*;
use crate::text::{opt_str, opt_text};

pub mod auth;
pub mod changelog;
pub mod component;
pub mod context;
pub mod doctor;
pub mod file;
pub mod git;
pub mod init;
pub mod logs;
pub mod server;
pub mod ssh;
pub mod version;

verus! {

/// The arguments of a command that sets fields of a stored record from JSON and flags.
#[derive(Debug)]
pub struct DynamicSetArgs {
    /// The id of the record, where the JSON does not give it.
    pub id: Option<String>,
    /// The JSON spec given by position.
    pub spec: Option<String>,
    /// The JSON spec given by flag.
    pub json: Option<String>,
    /// Further flags, each followed by its value.
    pub extra: Vec<String>,
}

/// The names with one more, where it is present.
pub open spec fn with_field(names: Seq<Seq<char>>, present: bool, name: Seq<char>) -> Seq<Seq<char>> {
    if present {
        names.push(name)
    } else {
        names
    }
}

/// Puts the name of a field at the end of the list.
pub fn note(names: &mut Vec<String>, name: &str)
    ensures
        crate::text::texts(final(names)@) == crate::text::texts(old(names)@).push(name@),
{
    let ghost before = crate::text::texts(names@);
    names.push(String::from_str(name));
    assert(crate::text::texts(names@) =~= before.push(name@));
}

impl DynamicSetArgs {
    /// The JSON spec: the one given by flag, else the one given by position.
    pub fn json_spec(&self) -> (r: Option<&str>)
        ensures
            opt_str(r) == if self.json is Some {
                opt_text(self.json)
            } else {
                opt_text(self.spec)
            },
    {
        match &self.json {
            Some(j) => Some(j.as_str()),
            None => match &self.spec {
                Some(s) => Some(s.as_str()),
                None => None,
            },
        }
    }
}

} // verus!
