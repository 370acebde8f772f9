//! The `version` command.

use vstd::prelude::*;
use vstd::string::*;
use crate::text::{concat, opt_text, texts};

verus! {

/// A file that holds the version of a component.
#[derive(Debug)]
pub struct VersionTargetInfo {
    pub file: String,
    pub pattern: String,
    pub full_path: String,
    pub match_count: usize,
}

/// The arguments of the `version` command.
#[derive(Debug)]
pub struct VersionArgs {
    pub command: VersionCommand,
}

/// What the `version` command is asked to do.
#[derive(Debug)]
pub enum VersionCommand {
    Show { cwd: bool, component_id: Option<String> },
    Bump {
        dry_run: bool,
        no_commit: bool,
        cwd: bool,
        bump_type: BumpType,
        component_id: Option<String>,
    },
    Assign { component_id: Option<String>, new_version: String },
}

/// Which part of a version is raised.
#[derive(Clone, Copy, Debug, PartialEq, Eq, Structural)]
pub enum BumpType {
    Patch,
    Minor,
    Major,
}

impl BumpType {
    /// The word for the part.
    pub open spec fn word(self) -> Seq<char> {
        match self {
            BumpType::Patch => "patch"@,
            BumpType::Minor => "minor"@,
            BumpType::Major => "major"@,
        }
    }

    /// The word for the part.
    pub fn as_str(&self) -> (r: &'static str)
        ensures
            r@ == self.word(),
    {
        match self {
            BumpType::Patch => "patch",
            BumpType::Minor => "minor",
            BumpType::Major => "major",
        }
    }
}

/// The commit that followed a bump.
#[derive(Debug)]
pub struct GitCommitInfo {
    pub success: bool,
    pub message: String,
    pub files_staged: Vec<String>,
    pub stdout: Option<String>,
    pub stderr: Option<String>,
}

/// The version of a component.
#[derive(Debug)]
pub struct VersionShowOutput {
    pub command: String,
    pub component_id: Option<String>,
    pub version: String,
    pub targets: Vec<VersionTargetInfo>,
}

/// A version that was raised.
#[derive(Debug)]
pub struct VersionBumpOutput {
    pub command: String,
    pub component_id: Option<String>,
    pub old_version: String,
    pub new_version: String,
    pub targets: Vec<VersionTargetInfo>,
    pub changelog_path: String,
    pub changelog_finalized: bool,
    pub changelog_changed: bool,
    pub dry_run: Option<bool>,
    pub git_commit: Option<GitCommitInfo>,
}

/// A version that was set.
#[derive(Debug)]
pub struct VersionSetOutput {
    pub command: String,
    pub component_id: Option<String>,
    pub old_version: String,
    pub new_version: String,
    pub targets: Vec<VersionTargetInfo>,
}

/// What the `version` command reports.
#[derive(Debug)]
pub enum VersionOutput {
    Show(VersionShowOutput),
    Bump(VersionBumpOutput),
    Assign(VersionSetOutput),
}

/// The report of the version of a component.
pub fn show_version_output(component_id: &str, version: String, targets: Vec<VersionTargetInfo>) -> (r:
    (VersionShowOutput, i32))
    ensures
        r.0.command@ == "version.show"@,
        opt_text(r.0.component_id) == Some(component_id@),
        r.0.version == version,
        r.0.targets == targets,
        r.1 == 0,
{
    (
        VersionShowOutput {
            command: String::from_str("version.show"),
            component_id: Some(String::from_str(component_id)),
            version,
            targets,
        },
        0,
    )
}

/// The component that a command works on: none where the working directory is asked for.
pub fn resolved_id(cwd: bool, component_id: Option<String>) -> (r: Option<String>)
    ensures
        r == if cwd {
            None
        } else {
            component_id
        },
{
    if cwd {
        None
    } else {
        component_id
    }
}

/// The message of the commit that follows a bump.
pub fn commit_message(new_version: &str) -> (r: String)
    ensures
        r@ == "release: v"@ + new_version@,
{
    concat("release: v", new_version)
}

/// The text, or none where it is empty.
pub fn non_empty(s: String) -> (r: Option<String>)
    ensures
        r == if s@.len() == 0 {
            None
        } else {
            Some(s)
        },
{
    if s.as_str().unicode_len() == 0 {
        None
    } else {
        Some(s)
    }
}

/// The files that the commit after a bump stages: the version files, and the changelog
/// where there is one.
pub fn files_to_stage(targets: &Vec<VersionTargetInfo>, changelog_path: &str) -> (r: Vec<String>)
    ensures
        texts(r@) == Seq::new(targets@.len(), |i: int| targets@[i].full_path@) + if changelog_path@.len()
            == 0 {
            Seq::<Seq<char>>::empty()
        } else {
            seq![changelog_path@]
        },
{
    let mut out: Vec<String> = Vec::new();
    let mut i: usize = 0;
    while i < targets.len()
        invariant
            i <= targets.len(),
            out@.len() == i,
            forall|j: int| 0 <= j < i ==> out@[j]@ == targets@[j].full_path@,
        decreases targets.len() - i,
    {
        out.push(targets[i].full_path.clone());
        i += 1;
    }
    let ghost paths = Seq::new(targets@.len(), |i: int| targets@[i].full_path@);
    assert(texts(out@) =~= paths);
    if changelog_path.unicode_len() > 0 {
        out.push(String::from_str(changelog_path));
        assert(texts(out@) =~= paths + seq![changelog_path@]);
    } else {
        assert(paths + Seq::<Seq<char>>::empty() =~= paths);
    }
    out
}

} // verus!
