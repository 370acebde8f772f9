//! The `file` command.

use vstd::prelude::*;
use vstd::string::*;
use crate::remote_files::{
    DeleteResult, FileEntry, FindResult, GrepMatch, GrepResult, ListResult, ReadResult,
    RenameResult, WriteResult,
};

verus! {

/// The arguments of the `file` command.
#[derive(Debug)]
pub struct FileArgs {
    pub command: FileCommand,
}

/// What the `file` command is asked to do.
#[derive(Debug)]
pub enum FileCommand {
    List { project_id: String, path: String },
    Read { project_id: String, path: String },
    Write { project_id: String, path: String },
    Delete { project_id: String, path: String, recursive: bool },
    Rename { project_id: String, old_path: String, new_path: String },
    Find {
        project_id: String,
        path: String,
        name: Option<String>,
        file_type: Option<String>,
        max_depth: Option<u32>,
    },
    Grep {
        project_id: String,
        path: String,
        pattern: String,
        name: Option<String>,
        max_depth: Option<u32>,
        ignore_case: bool,
    },
}

/// What the `file` command reports of a file or a directory.
#[derive(Debug)]
pub struct FileOutput {
    pub command: String,
    pub project_id: String,
    pub base_path: Option<String>,
    pub path: Option<String>,
    pub old_path: Option<String>,
    pub new_path: Option<String>,
    pub recursive: Option<bool>,
    pub entries: Option<Vec<FileEntry>>,
    pub content: Option<String>,
    pub bytes_written: Option<usize>,
    pub stdout: Option<String>,
    pub stderr: Option<String>,
    pub exit_code: i32,
    pub success: bool,
}

/// What the `file` command reports of a search by name.
#[derive(Debug)]
pub struct FileFindOutput {
    pub command: String,
    pub project_id: String,
    pub base_path: Option<String>,
    pub path: String,
    pub pattern: Option<String>,
    pub matches: Vec<String>,
    pub match_count: usize,
}

/// What the `file` command reports of a search in files.
#[derive(Debug)]
pub struct FileGrepOutput {
    pub command: String,
    pub project_id: String,
    pub base_path: Option<String>,
    pub path: String,
    pub pattern: String,
    pub matches: Vec<GrepMatch>,
    pub match_count: usize,
}

/// What the `file` command reports.
#[derive(Debug)]
pub enum FileCommandOutput {
    Standard(FileOutput),
    Find(FileFindOutput),
    Grep(FileGrepOutput),
}

/// The report is that of a command that went well, and says no more than its name and the
/// project.
pub open spec fn plain(r: FileOutput, command: Seq<char>, project_id: Seq<char>) -> bool {
    &&& r.command@ == command
    &&& r.project_id@ == project_id
    &&& r.stdout is None
    &&& r.stderr is None
    &&& r.exit_code == 0
    &&& r.success
}

/// A report that says no more than the name of the command and the project.
fn blank(command: &str, project_id: &str) -> (r: FileOutput)
    ensures
        plain(r, command@, project_id@),
        r.base_path is None,
        r.path is None,
        r.old_path is None,
        r.new_path is None,
        r.recursive is None,
        r.entries is None,
        r.content is None,
        r.bytes_written is None,
{
    FileOutput {
        command: String::from_str(command),
        project_id: String::from_str(project_id),
        base_path: None,
        path: None,
        old_path: None,
        new_path: None,
        recursive: None,
        entries: None,
        content: None,
        bytes_written: None,
        stdout: None,
        stderr: None,
        exit_code: 0,
        success: true,
    }
}

/// The report of a listing.
pub fn list(project_id: &str, result: ListResult) -> (r: (FileOutput, i32))
    ensures
        plain(r.0, "file.list"@, project_id@),
        r.0.base_path == result.base_path,
        r.0.path == Some(result.path),
        r.0.entries == Some(result.entries),
        r.0.old_path is None && r.0.new_path is None && r.0.recursive is None && r.0.content
            is None && r.0.bytes_written is None,
        r.1 == 0,
{
    let mut out = blank("file.list", project_id);
    out.base_path = result.base_path;
    out.path = Some(result.path);
    out.entries = Some(result.entries);
    (out, 0)
}

/// The report of a file that was read.
pub fn read(project_id: &str, result: ReadResult) -> (r: (FileOutput, i32))
    ensures
        plain(r.0, "file.read"@, project_id@),
        r.0.base_path == result.base_path,
        r.0.path == Some(result.path),
        r.0.content == Some(result.content),
        r.0.old_path is None && r.0.new_path is None && r.0.recursive is None && r.0.entries
            is None && r.0.bytes_written is None,
        r.1 == 0,
{
    let mut out = blank("file.read", project_id);
    out.base_path = result.base_path;
    out.path = Some(result.path);
    out.content = Some(result.content);
    (out, 0)
}

/// The report of a file that was written.
pub fn write(project_id: &str, result: WriteResult) -> (r: (FileOutput, i32))
    ensures
        plain(r.0, "file.write"@, project_id@),
        r.0.base_path == result.base_path,
        r.0.path == Some(result.path),
        r.0.bytes_written == Some(result.bytes_written),
        r.0.old_path is None && r.0.new_path is None && r.0.recursive is None && r.0.entries
            is None && r.0.content is None,
        r.1 == 0,
{
    let mut out = blank("file.write", project_id);
    out.base_path = result.base_path;
    out.path = Some(result.path);
    out.bytes_written = Some(result.bytes_written);
    (out, 0)
}

/// The report of what was deleted.
pub fn delete(project_id: &str, result: DeleteResult) -> (r: (FileOutput, i32))
    ensures
        plain(r.0, "file.delete"@, project_id@),
        r.0.base_path == result.base_path,
        r.0.path == Some(result.path),
        r.0.recursive == Some(result.recursive),
        r.0.old_path is None && r.0.new_path is None && r.0.entries is None && r.0.content
            is None && r.0.bytes_written is None,
        r.1 == 0,
{
    let mut out = blank("file.delete", project_id);
    out.base_path = result.base_path;
    out.path = Some(result.path);
    out.recursive = Some(result.recursive);
    (out, 0)
}

/// The report of what was renamed.
pub fn rename(project_id: &str, result: RenameResult) -> (r: (FileOutput, i32))
    ensures
        plain(r.0, "file.rename"@, project_id@),
        r.0.base_path == result.base_path,
        r.0.old_path == Some(result.old_path),
        r.0.new_path == Some(result.new_path),
        r.0.path is None && r.0.recursive is None && r.0.entries is None && r.0.content is None
            && r.0.bytes_written is None,
        r.1 == 0,
{
    let mut out = blank("file.rename", project_id);
    out.base_path = result.base_path;
    out.old_path = Some(result.old_path);
    out.new_path = Some(result.new_path);
    (out, 0)
}

/// The report of a search by name, with the number of paths found.
pub fn find(project_id: &str, result: FindResult) -> (r: (FileFindOutput, i32))
    ensures
        r.0.command@ == "file.find"@,
        r.0.project_id@ == project_id@,
        r.0.base_path == result.base_path,
        r.0.path == result.path,
        r.0.pattern == result.pattern,
        r.0.matches == result.matches,
        r.0.match_count == result.matches@.len(),
        r.1 == 0,
{
    let match_count = result.matches.len();
    (
        FileFindOutput {
            command: String::from_str("file.find"),
            project_id: String::from_str(project_id),
            base_path: result.base_path,
            path: result.path,
            pattern: result.pattern,
            matches: result.matches,
            match_count,
        },
        0,
    )
}

/// The report of a search in files, with the number of lines found.
pub fn grep(project_id: &str, result: GrepResult) -> (r: (FileGrepOutput, i32))
    ensures
        r.0.command@ == "file.grep"@,
        r.0.project_id@ == project_id@,
        r.0.base_path == result.base_path,
        r.0.path == result.path,
        r.0.pattern == result.pattern,
        r.0.matches == result.matches,
        r.0.match_count == result.matches@.len(),
        r.1 == 0,
{
    let match_count = result.matches.len();
    (
        FileGrepOutput {
            command: String::from_str("file.grep"),
            project_id: String::from_str(project_id),
            base_path: result.base_path,
            path: result.path,
            pattern: result.pattern,
            matches: result.matches,
            match_count,
        },
        0,
    )
}

} // verus!
