//! The `doctor` command.

use vstd::prelude::*;
use vstd::string::*;

verus! {

/// The arguments of the `doctor` command.
#[derive(Debug)]
pub struct DoctorArgs {
    pub scope: ScopeArg,
    /// A file to scan in place of a scope.
    pub file: Option<String>,
    pub fail_on: FailOnArg,
}

/// Which part of the configuration is scanned.
#[derive(Clone, Copy, Debug, PartialEq, Eq, Structural)]
pub enum ScopeArg {
    All,
    App,
    Projects,
    Servers,
    Components,
    Modules,
}

/// What makes the command fail.
#[derive(Clone, Copy, Debug, PartialEq, Eq, Structural)]
pub enum FailOnArg {
    Error,
    Warning,
}

/// The part of the configuration that a scan covers.
#[derive(Clone, Copy, Debug, PartialEq, Eq, Structural)]
pub enum DoctorScope {
    All,
    App,
    Projects,
    Servers,
    Components,
    Modules,
}

/// The kind of finding from which on a scan counts as failed.
#[derive(Clone, Copy, Debug, PartialEq, Eq, Structural)]
pub enum FailOn {
    Error,
    Warning,
}

/// The scope that an argument names.
pub open spec fn scope_of(scope: ScopeArg) -> DoctorScope {
    match scope {
        ScopeArg::All => DoctorScope::All,
        ScopeArg::App => DoctorScope::App,
        ScopeArg::Projects => DoctorScope::Projects,
        ScopeArg::Servers => DoctorScope::Servers,
        ScopeArg::Components => DoctorScope::Components,
        ScopeArg::Modules => DoctorScope::Modules,
    }
}

/// The scope that an argument names.
pub fn scope_to_core(scope: ScopeArg) -> (r: DoctorScope)
    ensures
        r == scope_of(scope),
{
    match scope {
        ScopeArg::All => DoctorScope::All,
        ScopeArg::App => DoctorScope::App,
        ScopeArg::Projects => DoctorScope::Projects,
        ScopeArg::Servers => DoctorScope::Servers,
        ScopeArg::Components => DoctorScope::Components,
        ScopeArg::Modules => DoctorScope::Modules,
    }
}

/// The kind of finding that an argument names.
pub open spec fn fail_on_of(fail_on: FailOnArg) -> FailOn {
    match fail_on {
        FailOnArg::Error => FailOn::Error,
        FailOnArg::Warning => FailOn::Warning,
    }
}

/// The kind of finding that an argument names.
pub fn fail_to_core(fail_on: FailOnArg) -> (r: FailOn)
    ensures
        r == fail_on_of(fail_on),
{
    match fail_on {
        FailOnArg::Error => FailOn::Error,
        FailOnArg::Warning => FailOn::Warning,
    }
}

/// How many findings of each kind a scan made.
#[derive(Clone, Copy, Debug, PartialEq, Eq, Structural)]
pub struct DoctorSummary {
    pub errors: usize,
    pub warnings: usize,
}

/// What the `doctor` command reports: the report of the scan as JSON text.
#[derive(Debug)]
pub struct DoctorOutput {
    pub report: String,
}

/// The exit code of a scan: 1 where it found an error, or a warning where warnings count.
pub open spec fn exit_code_of(summary: DoctorSummary, fail_on: FailOn) -> i32 {
    if summary.errors > 0 || (fail_on == FailOn::Warning && summary.warnings > 0) {
        1
    } else {
        0
    }
}

/// The exit code of a scan.
pub fn exit_code(summary: DoctorSummary, fail_on: FailOn) -> (r: i32)
    ensures
        r == exit_code_of(summary, fail_on),
{
    if summary.errors > 0 {
        return 1;
    }
    match fail_on {
        FailOn::Warning => if summary.warnings > 0 {
            1
        } else {
            0
        },
        FailOn::Error => 0,
    }
}

/// What the command reports of a scan, and its exit code.
pub fn run(args: &DoctorArgs, report: String, summary: DoctorSummary) -> (r: (DoctorOutput, i32))
    ensures
        r.0.report == report,
        r.1 == exit_code_of(summary, fail_on_of(args.fail_on)),
{
    let code = exit_code(summary, fail_to_core(args.fail_on));
    (DoctorOutput { report }, code)
}

/// What is scanned: the file where one is named, else the scope.
pub fn scans_file(args: &DoctorArgs) -> (r: bool)
    ensures
        r == (args.file is Some),
{
    args.file.is_some()
}

} // verus!
