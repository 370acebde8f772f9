//! Files on a remote machine: the commands that list, read, write, delete, rename and search
//! them, and what their output means.

use vstd::prelude::*;
use vstd::string::*;
use crate::base_path::{join_remote_path, join_with_slash, remote_path, slash_joined};
use crate::error::{text_result, Error, ErrorView};
use crate::numbers::{decimal, format_u32, parse_i64, parse_u32, parsed_i64, parsed_unsigned};
use crate::shell::{quote_path, quoted};
use crate::split::{
    find_from, first_index, has_prefix, lines, lines_of, slice_chars, starts_with, words, words_of,
};
use crate::ssh::CommandOutput;
use crate::text::{
    chars_of, concat, concat3, join, joined, lemma_order_of, lowercase, lowercase_of, opt_str,
    opt_text, order_of, same_text, stable_order, string_of, texts, trim, trimmed,
};

verus! {

/// A file or a directory of a listing.
#[derive(Debug)]
pub struct FileEntry {
    pub name: String,
    pub path: String,
    pub is_directory: bool,
    pub size: Option<i64>,
    pub permissions: String,
}

pub struct FileEntryView {
    pub name: Seq<char>,
    pub path: Seq<char>,
    pub is_directory: bool,
    pub size: Option<i64>,
    pub permissions: Seq<char>,
}

impl View for FileEntry {
    type V = FileEntryView;

    open spec fn view(&self) -> FileEntryView {
        FileEntryView {
            name: self.name@,
            path: self.path@,
            is_directory: self.is_directory,
            size: self.size,
            permissions: self.permissions@,
        }
    }
}

impl Clone for FileEntry {
    fn clone(&self) -> (r: Self)
        ensures
            r@ == self@,
    {
        FileEntry {
            name: self.name.clone(),
            path: self.path.clone(),
            is_directory: self.is_directory,
            size: self.size,
            permissions: self.permissions.clone(),
        }
    }
}

/// The entries of a list, in order.
pub open spec fn entry_views(entries: Seq<FileEntry>) -> Seq<FileEntryView> {
    Seq::new(entries.len(), |i: int| entries[i]@)
}

/// The contents of a directory.
#[derive(Debug)]
pub struct ListResult {
    pub base_path: Option<String>,
    pub path: String,
    pub entries: Vec<FileEntry>,
}

/// The content of a file.
#[derive(Debug)]
pub struct ReadResult {
    pub base_path: Option<String>,
    pub path: String,
    pub content: String,
}

/// What was written to a file.
#[derive(Debug)]
pub struct WriteResult {
    pub base_path: Option<String>,
    pub path: String,
    pub bytes_written: usize,
}

/// What was deleted.
#[derive(Debug)]
pub struct DeleteResult {
    pub base_path: Option<String>,
    pub path: String,
    pub recursive: bool,
}

/// What was renamed.
#[derive(Debug)]
pub struct RenameResult {
    pub base_path: Option<String>,
    pub old_path: String,
    pub new_path: String,
}

/// The paths that a search by name found.
#[derive(Debug)]
pub struct FindResult {
    pub base_path: Option<String>,
    pub path: String,
    pub pattern: Option<String>,
    pub matches: Vec<String>,
}

/// A line of a file that holds what was searched for.
#[derive(Debug)]
pub struct GrepMatch {
    pub file: String,
    pub line: u32,
    pub content: String,
}

/// The lines that a search in files found.
#[derive(Debug)]
pub struct GrepResult {
    pub base_path: Option<String>,
    pub path: String,
    pub pattern: String,
    pub matches: Vec<GrepMatch>,
}

/// The number that a text stands for, as far as it fits 64 bits.
pub open spec fn size_of(text: Seq<char>) -> Option<i64> {
    match parsed_i64(text) {
        Some(n) => Some(n as i64),
        None => None,
    }
}

/// The entry that a line of `ls -la` describes: its first word gives the kind and the
/// permissions, its fifth the size, and what follows the eighth is the name. The line of the
/// total, lines with fewer than nine words, and the entries `.` and `..` describe none.
pub open spec fn ls_line(line: Seq<char>, base_path: Seq<char>) -> Option<FileEntryView> {
    let parts = words_of(line);
    let name = joined(parts.skip(8), " "@);
    if line.len() == 0 || has_prefix(line, "total "@) || parts.len() < 9 || name == "."@ || name
        == ".."@ {
        None
    } else {
        Some(
            FileEntryView {
                name,
                path: slash_joined(base_path, name),
                is_directory: parts[0].len() > 0 && parts[0][0] == 'd',
                size: size_of(parts[4]),
                permissions: if parts[0].len() > 0 {
                    parts[0].skip(1)
                } else {
                    Seq::empty()
                },
            },
        )
    }
}

/// The entries that the lines describe, in order.
pub open spec fn ls_lines(lines: Seq<Seq<char>>, base_path: Seq<char>) -> Seq<FileEntryView>
    decreases lines.len(),
{
    if lines.len() == 0 {
        Seq::empty()
    } else {
        ls_lines(lines.drop_last(), base_path) + match ls_line(lines.last(), base_path) {
            Some(e) => seq![e],
            None => Seq::empty(),
        }
    }
}

/// What an entry is sorted by: directories before files, then the name in lowercase.
pub open spec fn entry_key(e: FileEntryView) -> Seq<char> {
    (if e.is_directory {
        seq!['0']
    } else {
        seq!['1']
    }) + lowercase_of(e.name)
}

/// The keys of the entries, in order.
pub open spec fn entry_keys(entries: Seq<FileEntryView>) -> Seq<Seq<char>> {
    Seq::new(entries.len(), |i: int| entry_key(entries[i]))
}

/// The entries at the given places.
pub open spec fn entries_at(entries: Seq<FileEntryView>, order: Seq<int>) -> Seq<FileEntryView> {
    Seq::new(order.len(), |i: int| entries[order[i]])
}

/// The entries of a listing: directories first, then files, each group by name without
/// regard to case.
pub open spec fn ls_entries(output: Seq<char>, base_path: Seq<char>) -> Seq<FileEntryView> {
    let found = ls_lines(lines_of(output), base_path);
    entries_at(found, order_of(entry_keys(found)))
}

/// Reads a line of `ls -la`.
fn parse_ls_line(line: &str, base_path: &str) -> (r: Option<FileEntry>)
    ensures
        match r {
            Some(e) => ls_line(line@, base_path@) == Some(e@),
            None => ls_line(line@, base_path@) is None,
        },
{
    if line.unicode_len() == 0 || starts_with(line, "total ") {
        return None;
    }
    let parts = words(line);
    if parts.len() < 9 {
        return None;
    }
    let mut tail: Vec<String> = Vec::new();
    let mut i: usize = 8;
    while i < parts.len()
        invariant
            8 <= i <= parts.len(),
            texts(tail@) == texts(parts@).subrange(8, i as int),
        decreases parts.len() - i,
    {
        let ghost before = texts(tail@);
        tail.push(parts[i].clone());
        assert(texts(tail@) =~= before.push(parts@[i as int]@));
        assert(before.push(texts(parts@)[i as int]) =~= texts(parts@).subrange(8, i + 1));
        i += 1;
    }
    assert(texts(parts@).subrange(8, parts@.len() as int) =~= texts(parts@).skip(8));
    let name = join(&tail, " ");
    if same_text(name.as_str(), ".") || same_text(name.as_str(), "..") {
        return None;
    }
    let permissions = chars_of(parts[0].as_str());
    let is_directory = permissions.len() > 0 && permissions[0] == 'd';
    let size = parse_i64(parts[4].as_str());
    let path = join_with_slash(base_path, name.as_str());
    let rights = if permissions.len() > 0 {
        string_of(&slice_chars(&permissions, 1, permissions.len()))
    } else {
        String::new()
    };
    assert(permissions@ == texts(parts@)[0]);
    assert(permissions@.len() > 0 ==> rights@ =~= texts(parts@)[0].skip(1));
    Some(FileEntry { name, path, is_directory, size, permissions: rights })
}

/// What an entry is sorted by.
fn key_of(e: &FileEntry) -> (r: String)
    ensures
        r@ == entry_key(e@),
{
    proof {
        reveal_strlit("0");
        reveal_strlit("1");
        assert("0"@ =~= seq!['0']);
        assert("1"@ =~= seq!['1']);
    }
    let lower = lowercase(e.name.as_str());
    if e.is_directory {
        concat("0", lower.as_str())
    } else {
        concat("1", lower.as_str())
    }
}

/// Reads the output of `ls -la` for the directory `base_path`.
pub fn parse_ls_output(output: &str, base_path: &str) -> (r: Vec<FileEntry>)
    ensures
        entry_views(r@) == ls_entries(output@, base_path@),
{
    let all = lines(output);
    let ghost lv = texts(all@);
    let mut found: Vec<FileEntry> = Vec::new();
    let mut keys: Vec<String> = Vec::new();
    let mut i: usize = 0;
    assert(lv.take(0) =~= Seq::<Seq<char>>::empty());
    assert(entry_views(found@) =~= Seq::<FileEntryView>::empty());
    while i < all.len()
        invariant
            i <= all.len(),
            lv == texts(all@),
            entry_views(found@) == ls_lines(lv.take(i as int), base_path@),
            keys@.len() == found@.len(),
            forall|k: int| 0 <= k < keys@.len() ==> keys@[k]@ == entry_key(found@[k]@),
        decreases all.len() - i,
    {
        proof {
            assert(lv.take(i + 1).drop_last() =~= lv.take(i as int));
            assert(lv.take(i + 1).last() == all@[i as int]@);
        }
        let ghost before = entry_views(found@);
        match parse_ls_line(all[i].as_str(), base_path) {
            Some(e) => {
                let ghost ev = e@;
                keys.push(key_of(&e));
                found.push(e);
                assert(entry_views(found@) =~= before + seq![ev]);
            },
            None => {
                assert(before + Seq::<FileEntryView>::empty() =~= before);
            },
        }
        i += 1;
    }
    proof {
        assert(lv.take(all@.len() as int) =~= lv);
        assert(texts(keys@) =~= entry_keys(entry_views(found@)));
    }
    let order = stable_order(&keys);
    proof {
        lemma_order_of(entry_keys(entry_views(found@)));
    }
    let mut entries: Vec<FileEntry> = Vec::new();
    let mut k: usize = 0;
    while k < order.len()
        invariant
            k <= order.len(),
            order@.len() == found@.len(),
            forall|j: int| 0 <= j < order@.len() ==> (#[trigger] order@[j]) < found@.len(),
            forall|j: int|
                0 <= j < order@.len() ==> order@[j] as int == order_of(
                    entry_keys(entry_views(found@)),
                )[j],
            entries@.len() == k,
            forall|j: int| 0 <= j < k ==> entries@[j]@ == found@[order@[j] as int]@,
        decreases order.len() - k,
    {
        entries.push(found[order[k]].clone());
        k += 1;
    }
    proof {
        let fv = entry_views(found@);
        lemma_order_of(entry_keys(fv));
        assert(entry_views(entries@) =~= entries_at(fv, order_of(entry_keys(fv))));
    }
    entries
}

/// The content as it is written: without one line feed at its end.
pub open spec fn without_last_newline(content: Seq<char>) -> Seq<char> {
    if content.len() > 0 && content.last() == '\n' {
        content.drop_last()
    } else {
        content
    }
}

/// Takes one line feed from the end of what was read from the standard input.
pub fn strip_last_newline(content: &str) -> (r: String)
    ensures
        r@ == without_last_newline(content@),
{
    let v = chars_of(content);
    if v.len() > 0 && v[v.len() - 1] == '\n' {
        let out = string_of(&slice_chars(&v, 0, v.len() - 1));
        assert(out@ =~= content@.drop_last());
        out
    } else {
        String::from_str(content)
    }
}

/// A command made of a start and a quoted path.
pub open spec fn with_path(start: Seq<char>, full_path: Seq<char>) -> Seq<char> {
    start + quoted(full_path)
}

/// The command for a path of a project, or why the path cannot be built.
pub open spec fn path_command(
    base_path: Option<Seq<char>>,
    path: Seq<char>,
    start: Seq<char>,
) -> Result<Seq<char>, ErrorView> {
    match remote_path(base_path, path) {
        Ok(full) => Ok(with_path(start, full)),
        Err(e) => Err(e),
    }
}

/// Writes a command made of a start and the quoted path.
fn command_for(base_path: Option<&str>, path: &str, start: &str) -> (r: Result<String, Error>)
    ensures
        text_result(r) == path_command(opt_str(base_path), path@, start@),
{
    let full_path = match join_remote_path(base_path, path) {
        Ok(p) => p,
        Err(e) => {
            return Err(e);
        },
    };
    Ok(concat(start, quote_path(full_path.as_str()).as_str()))
}

/// The command that lists a directory.
pub fn list_command(base_path: Option<&str>, path: &str) -> (r: Result<String, Error>)
    ensures
        text_result(r) == path_command(opt_str(base_path), path@, "ls -la "@),
{
    command_for(base_path, path, "ls -la ")
}

/// What a command that failed is reported as: a word for the operation and what the command
/// printed as its error.
pub open spec fn failure(word: Seq<char>, output: CommandOutput) -> ErrorView {
    ErrorView::Other { message: word + output.stderr@ }
}

/// The contents of a directory, from the output of the command that `list_command` wrote.
pub fn list(base_path: Option<&str>, path: &str, output: &CommandOutput) -> (r: Result<
    ListResult,
    Error,
>)
    ensures
        match remote_path(opt_str(base_path), path@) {
            Err(e) => r is Err && r->Err_0@ == e,
            Ok(full) => if !output.success {
                r is Err && r->Err_0@ == failure("LIST_FAILED: "@, *output)
            } else {
                r is Ok && opt_text(r->Ok_0.base_path) == opt_str(base_path) && r->Ok_0.path@
                    == full && entry_views(r->Ok_0.entries@) == ls_entries(output.stdout@, full)
            },
        },
{
    let full_path = match join_remote_path(base_path, path) {
        Ok(p) => p,
        Err(e) => {
            return Err(e);
        },
    };
    if !output.success {
        return Err(Error::Other { message: concat("LIST_FAILED: ", output.stderr.as_str()) });
    }
    let entries = parse_ls_output(output.stdout.as_str(), full_path.as_str());
    Ok(ListResult { base_path: owned(base_path), path: full_path, entries })
}

/// A copy of an optional string slice.
pub fn owned(o: Option<&str>) -> (r: Option<String>)
    ensures
        opt_text(r) == opt_str(o),
{
    match o {
        Some(s) => Some(String::from_str(s)),
        None => None,
    }
}

/// The command that prints a file.
pub fn read_command(base_path: Option<&str>, path: &str) -> (r: Result<String, Error>)
    ensures
        text_result(r) == path_command(opt_str(base_path), path@, "cat "@),
{
    command_for(base_path, path, "cat ")
}

/// The content of a file, from the output of the command that `read_command` wrote.
pub fn read(base_path: Option<&str>, path: &str, output: CommandOutput) -> (r: Result<
    ReadResult,
    Error,
>)
    ensures
        match remote_path(opt_str(base_path), path@) {
            Err(e) => r is Err && r->Err_0@ == e,
            Ok(full) => if !output.success {
                r is Err && r->Err_0@ == failure("READ_FAILED: "@, output)
            } else {
                r is Ok && opt_text(r->Ok_0.base_path) == opt_str(base_path) && r->Ok_0.path@
                    == full && r->Ok_0.content@ == output.stdout@
            },
        },
{
    let full_path = match join_remote_path(base_path, path) {
        Ok(p) => p,
        Err(e) => {
            return Err(e);
        },
    };
    if !output.success {
        return Err(Error::Other { message: concat("READ_FAILED: ", output.stderr.as_str()) });
    }
    Ok(ReadResult { base_path: owned(base_path), path: full_path, content: output.stdout })
}

/// The command that writes the content to a file.
pub open spec fn write_command_text(full_path: Seq<char>, content: Seq<char>) -> Seq<char> {
    "cat > "@ + quoted(full_path) + " << 'HOMEBOYEOF'\n"@ + content + "\nHOMEBOYEOF"@
}

/// The command that writes the content to a file.
pub fn write_command(base_path: Option<&str>, path: &str, content: &str) -> (r: Result<
    String,
    Error,
>)
    ensures
        text_result(r) == match remote_path(opt_str(base_path), path@) {
            Ok(full) => Ok::<Seq<char>, ErrorView>(write_command_text(full, content@)),
            Err(e) => Err(e),
        },
{
    let full_path = match join_remote_path(base_path, path) {
        Ok(p) => p,
        Err(e) => {
            return Err(e);
        },
    };
    let mut command = concat3("cat > ", quote_path(full_path.as_str()).as_str(), " << 'HOMEBOYEOF'\n");
    command.append(content);
    command.append("\nHOMEBOYEOF");
    Ok(command)
}

/// What was written, from the output of the command that `write_command` wrote.
pub fn write(base_path: Option<&str>, path: &str, content: &str, output: &CommandOutput) -> (r:
    Result<WriteResult, Error>)
    ensures
        match remote_path(opt_str(base_path), path@) {
            Err(e) => r is Err && r->Err_0@ == e,
            Ok(full) => if !output.success {
                r is Err && r->Err_0@ == failure("WRITE_FAILED: "@, *output)
            } else {
                r is Ok && opt_text(r->Ok_0.base_path) == opt_str(base_path) && r->Ok_0.path@
                    == full && r->Ok_0.bytes_written == content.spec_bytes().len() as usize
            },
        },
{
    let full_path = match join_remote_path(base_path, path) {
        Ok(p) => p,
        Err(e) => {
            return Err(e);
        },
    };
    if !output.success {
        return Err(Error::Other { message: concat("WRITE_FAILED: ", output.stderr.as_str()) });
    }
    Ok(WriteResult { base_path: owned(base_path), path: full_path, bytes_written: content.len() })
}

/// The start of the command that deletes.
pub open spec fn delete_start(recursive: bool) -> Seq<char> {
    if recursive {
        "rm -rf "@
    } else {
        "rm -f "@
    }
}

/// The command that deletes a file, or a directory with all that is in it.
pub fn delete_command(base_path: Option<&str>, path: &str, recursive: bool) -> (r: Result<
    String,
    Error,
>)
    ensures
        text_result(r) == path_command(opt_str(base_path), path@, delete_start(recursive)),
{
    if recursive {
        command_for(base_path, path, "rm -rf ")
    } else {
        command_for(base_path, path, "rm -f ")
    }
}

/// What was deleted, from the output of the command that `delete_command` wrote.
pub fn delete(base_path: Option<&str>, path: &str, recursive: bool, output: &CommandOutput) -> (r:
    Result<DeleteResult, Error>)
    ensures
        match remote_path(opt_str(base_path), path@) {
            Err(e) => r is Err && r->Err_0@ == e,
            Ok(full) => if !output.success {
                r is Err && r->Err_0@ == failure("DELETE_FAILED: "@, *output)
            } else {
                r is Ok && opt_text(r->Ok_0.base_path) == opt_str(base_path) && r->Ok_0.path@
                    == full && r->Ok_0.recursive == recursive
            },
        },
{
    let full_path = match join_remote_path(base_path, path) {
        Ok(p) => p,
        Err(e) => {
            return Err(e);
        },
    };
    if !output.success {
        return Err(Error::Other { message: concat("DELETE_FAILED: ", output.stderr.as_str()) });
    }
    Ok(DeleteResult { base_path: owned(base_path), path: full_path, recursive })
}

/// The two paths of a renaming, or why the first of them that cannot be built cannot.
pub open spec fn rename_paths(
    base_path: Option<Seq<char>>,
    old_path: Seq<char>,
    new_path: Seq<char>,
) -> Result<(Seq<char>, Seq<char>), ErrorView> {
    match remote_path(base_path, old_path) {
        Err(e) => Err(e),
        Ok(full_old) => match remote_path(base_path, new_path) {
            Err(e) => Err(e),
            Ok(full_new) => Ok((full_old, full_new)),
        },
    }
}

/// The command that renames.
pub open spec fn rename_command_text(full_old: Seq<char>, full_new: Seq<char>) -> Seq<char> {
    "mv "@ + quoted(full_old) + " "@ + quoted(full_new)
}

/// The command that renames or moves a file.
pub fn rename_command(base_path: Option<&str>, old_path: &str, new_path: &str) -> (r: Result<
    String,
    Error,
>)
    ensures
        text_result(r) == match rename_paths(opt_str(base_path), old_path@, new_path@) {
            Ok((full_old, full_new)) => Ok::<Seq<char>, ErrorView>(
                rename_command_text(full_old, full_new),
            ),
            Err(e) => Err(e),
        },
{
    let full_old = match join_remote_path(base_path, old_path) {
        Ok(p) => p,
        Err(e) => {
            return Err(e);
        },
    };
    let full_new = match join_remote_path(base_path, new_path) {
        Ok(p) => p,
        Err(e) => {
            return Err(e);
        },
    };
    let mut command = concat3("mv ", quote_path(full_old.as_str()).as_str(), " ");
    command.append(quote_path(full_new.as_str()).as_str());
    Ok(command)
}

/// What was renamed, from the output of the command that `rename_command` wrote.
pub fn rename(base_path: Option<&str>, old_path: &str, new_path: &str, output: &CommandOutput) -> (r:
    Result<RenameResult, Error>)
    ensures
        match rename_paths(opt_str(base_path), old_path@, new_path@) {
            Err(e) => r is Err && r->Err_0@ == e,
            Ok((full_old, full_new)) => if !output.success {
                r is Err && r->Err_0@ == failure("RENAME_FAILED: "@, *output)
            } else {
                r is Ok && opt_text(r->Ok_0.base_path) == opt_str(base_path)
                    && r->Ok_0.old_path@ == full_old && r->Ok_0.new_path@ == full_new
            },
        },
{
    let full_old = match join_remote_path(base_path, old_path) {
        Ok(p) => p,
        Err(e) => {
            return Err(e);
        },
    };
    let full_new = match join_remote_path(base_path, new_path) {
        Ok(p) => p,
        Err(e) => {
            return Err(e);
        },
    };
    if !output.success {
        return Err(Error::Other { message: concat("RENAME_FAILED: ", output.stderr.as_str()) });
    }
    Ok(RenameResult { base_path: owned(base_path), old_path: full_old, new_path: full_new })
}

/// The paths of the output of `find`: its lines that are not empty.
pub open spec fn found_paths(lines: Seq<Seq<char>>) -> Seq<Seq<char>>
    decreases lines.len(),
{
    if lines.len() == 0 {
        Seq::empty()
    } else {
        found_paths(lines.drop_last()) + if lines.last().len() > 0 {
            seq![lines.last()]
        } else {
            Seq::empty()
        }
    }
}

/// Reads the output of `find`.
pub fn parse_find_output(output: &str) -> (r: Vec<String>)
    ensures
        texts(r@) == found_paths(lines_of(output@)),
{
    let all = lines(output);
    let ghost lv = texts(all@);
    let mut out: Vec<String> = Vec::new();
    let mut i: usize = 0;
    assert(lv.take(0) =~= Seq::<Seq<char>>::empty());
    assert(texts(out@) =~= Seq::<Seq<char>>::empty());
    while i < all.len()
        invariant
            i <= all.len(),
            lv == texts(all@),
            texts(out@) == found_paths(lv.take(i as int)),
        decreases all.len() - i,
    {
        proof {
            assert(lv.take(i + 1).drop_last() =~= lv.take(i as int));
            assert(lv.take(i + 1).last() == all@[i as int]@);
        }
        let ghost before = texts(out@);
        if all[i].as_str().unicode_len() > 0 {
            out.push(all[i].clone());
            assert(texts(out@) =~= before + seq![all@[i as int]@]);
        } else {
            assert(before + Seq::<Seq<char>>::empty() =~= before);
        }
        i += 1;
    }
    proof {
        assert(lv.take(all@.len() as int) =~= lv);
    }
    out
}

/// The kind of file is one that `find` is asked for: a file, a directory or a link.
pub open spec fn known_file_type(t: Seq<char>) -> bool {
    t == "f"@ || t == "d"@ || t == "l"@
}

/// The command that finds files below a path.
pub open spec fn find_command_text(
    full_path: Seq<char>,
    name_pattern: Option<Seq<char>>,
    file_type: Option<Seq<char>>,
    max_depth: Option<u32>,
) -> Seq<char> {
    "find "@ + quoted(full_path) + (match max_depth {
        Some(d) => " -maxdepth "@ + decimal(d as nat),
        None => Seq::empty(),
    }) + (match file_type {
        Some(t) => " -type "@ + t,
        None => Seq::empty(),
    }) + (match name_pattern {
        Some(n) => " -name "@ + quoted(n),
        None => Seq::empty(),
    }) + " 2>/dev/null | sort"@
}

/// The command that finds files, or why it cannot be written: the path cannot be built, or
/// the kind of file is none of `f`, `d` and `l`.
pub open spec fn find_command_of(
    base_path: Option<Seq<char>>,
    path: Seq<char>,
    name_pattern: Option<Seq<char>>,
    file_type: Option<Seq<char>>,
    max_depth: Option<u32>,
) -> Result<Seq<char>, ErrorView> {
    match remote_path(base_path, path) {
        Err(e) => Err(e),
        Ok(full) => if file_type is Some && !known_file_type(file_type->Some_0) {
            Err(ErrorView::Other { message: "Invalid file type. Use 'f', 'd', or 'l'."@ })
        } else {
            Ok(find_command_text(full, name_pattern, file_type, max_depth))
        },
    }
}

/// The command that finds files below a path by name, kind and depth.
pub fn find_command(
    base_path: Option<&str>,
    path: &str,
    name_pattern: Option<&str>,
    file_type: Option<&str>,
    max_depth: Option<u32>,
) -> (r: Result<String, Error>)
    ensures
        text_result(r) == find_command_of(
            opt_str(base_path),
            path@,
            opt_str(name_pattern),
            opt_str(file_type),
            max_depth,
        ),
{
    let full_path = match join_remote_path(base_path, path) {
        Ok(p) => p,
        Err(e) => {
            return Err(e);
        },
    };
    let mut cmd = concat("find ", quote_path(full_path.as_str()).as_str());
    let ghost start = cmd@;
    match max_depth {
        Some(depth) => {
            cmd.append(" -maxdepth ");
            cmd.append(format_u32(depth).as_str());
            assert(cmd@ =~= start + (" -maxdepth "@ + decimal(depth as nat)));
        },
        None => {
            assert(cmd@ + Seq::<char>::empty() =~= cmd@);
        },
    }
    let ghost with_depth = cmd@;
    match file_type {
        Some(t) => {
            if same_text(t, "f") || same_text(t, "d") || same_text(t, "l") {
                cmd.append(" -type ");
                cmd.append(t);
                assert(cmd@ =~= with_depth + (" -type "@ + t@));
            } else {
                return Err(
                    Error::Other {
                        message: String::from_str("Invalid file type. Use 'f', 'd', or 'l'."),
                    },
                );
            }
        },
        None => {
            assert(cmd@ + Seq::<char>::empty() =~= cmd@);
        },
    }
    let ghost with_type = cmd@;
    match name_pattern {
        Some(name) => {
            cmd.append(" -name ");
            cmd.append(quote_path(name).as_str());
            assert(cmd@ =~= with_type + (" -name "@ + quoted(name@)));
        },
        None => {
            assert(cmd@ + Seq::<char>::empty() =~= cmd@);
        },
    }
    cmd.append(" 2>/dev/null | sort");
    Ok(cmd)
}

/// The paths that were found, from the output of the command that `find_command` wrote.
pub fn find(base_path: Option<&str>, path: &str, name_pattern: Option<&str>, output: &CommandOutput) -> (r:
    Result<FindResult, Error>)
    ensures
        match remote_path(opt_str(base_path), path@) {
            Err(e) => r is Err && r->Err_0@ == e,
            Ok(full) => r is Ok && opt_text(r->Ok_0.base_path) == opt_str(base_path)
                && r->Ok_0.path@ == full && opt_text(r->Ok_0.pattern) == opt_str(name_pattern)
                && texts(r->Ok_0.matches@) == found_paths(lines_of(output.stdout@)),
        },
{
    let full_path = match join_remote_path(base_path, path) {
        Ok(p) => p,
        Err(e) => {
            return Err(e);
        },
    };
    let matches = parse_find_output(output.stdout.as_str());
    Ok(
        FindResult {
            base_path: owned(base_path),
            path: full_path,
            pattern: owned(name_pattern),
            matches,
        },
    )
}

/// The file, the number and the text of a line of `grep -rn`: what stands before the first
/// colon, between the first two colons, and after the second. A line with fewer than two
/// colons, or without a number between them, holds no match.
pub open spec fn grep_line(line: Seq<char>) -> Option<(Seq<char>, u32, Seq<char>)> {
    let first = first_index(line, ':');
    let rest = line.skip(first + 1);
    let second = first_index(rest, ':');
    if line.len() == 0 || first >= line.len() || second >= rest.len() {
        None
    } else {
        match parsed_unsigned(rest.take(second), u32::MAX as nat) {
            Some(n) => Some((line.take(first), n as u32, rest.skip(second + 1))),
            None => None,
        }
    }
}

/// The matches in the lines, in order.
pub open spec fn grep_lines(lines: Seq<Seq<char>>) -> Seq<(Seq<char>, u32, Seq<char>)>
    decreases lines.len(),
{
    if lines.len() == 0 {
        Seq::empty()
    } else {
        grep_lines(lines.drop_last()) + match grep_line(lines.last()) {
            Some(m) => seq![m],
            None => Seq::empty(),
        }
    }
}

/// The matches of a list, as triples of file, number and text.
pub open spec fn match_views(matches: Seq<GrepMatch>) -> Seq<(Seq<char>, u32, Seq<char>)> {
    Seq::new(matches.len(), |i: int| (matches[i].file@, matches[i].line, matches[i].content@))
}

/// Reads a line of `grep -rn`.
fn parse_grep_line(line: &str) -> (r: Option<GrepMatch>)
    ensures
        match r {
            Some(m) => grep_line(line@) == Some((m.file@, m.line, m.content@)),
            None => grep_line(line@) is None,
        },
{
    let v = chars_of(line);
    if v.len() == 0 {
        return None;
    }
    assert(v@.skip(0) =~= v@);
    let first = find_from(&v, 0, ':');
    if first >= v.len() {
        return None;
    }
    let ghost rest = line@.skip(first + 1);
    let second = find_from(&v, first + 1, ':');
    if second >= v.len() {
        return None;
    }
    let number = string_of(&slice_chars(&v, first + 1, second));
    assert(number@ =~= rest.take(second - first - 1));
    match parse_u32(number.as_str()) {
        Some(n) => {
            let file = string_of(&slice_chars(&v, 0, first));
            let content = string_of(&slice_chars(&v, second + 1, v.len()));
            assert(file@ =~= line@.take(first as int));
            assert(content@ =~= rest.skip(second - first));
            Some(GrepMatch { file, line: n, content })
        },
        None => None,
    }
}

/// Reads the output of `grep -rn`.
pub fn parse_grep_output(output: &str) -> (r: Vec<GrepMatch>)
    ensures
        match_views(r@) == grep_lines(lines_of(output@)),
{
    let all = lines(output);
    let ghost lv = texts(all@);
    let mut matches: Vec<GrepMatch> = Vec::new();
    let mut i: usize = 0;
    assert(lv.take(0) =~= Seq::<Seq<char>>::empty());
    assert(match_views(matches@) =~= Seq::<(Seq<char>, u32, Seq<char>)>::empty());
    while i < all.len()
        invariant
            i <= all.len(),
            lv == texts(all@),
            match_views(matches@) == grep_lines(lv.take(i as int)),
        decreases all.len() - i,
    {
        proof {
            assert(lv.take(i + 1).drop_last() =~= lv.take(i as int));
            assert(lv.take(i + 1).last() == all@[i as int]@);
        }
        let ghost before = match_views(matches@);
        match parse_grep_line(all[i].as_str()) {
            Some(m) => {
                let ghost triple = (m.file@, m.line, m.content@);
                matches.push(m);
                assert(match_views(matches@) =~= before + seq![triple]);
            },
            None => {
                assert(before + Seq::<(Seq<char>, u32, Seq<char>)>::empty() =~= before);
            },
        }
        i += 1;
    }
    proof {
        assert(lv.take(all@.len() as int) =~= lv);
    }
    matches
}

/// The command that searches the files below a path.
pub open spec fn grep_command_text(
    full_path: Seq<char>,
    pattern: Seq<char>,
    name_filter: Option<Seq<char>>,
    max_depth: Option<u32>,
    case_insensitive: bool,
) -> Seq<char> {
    "grep "@ + (if case_insensitive {
        "-rni"@
    } else {
        "-rn"@
    }) + " "@ + quoted(pattern) + " "@ + quoted(full_path) + (match name_filter {
        Some(n) => " --include="@ + quoted(n),
        None => Seq::empty(),
    }) + (match max_depth {
        Some(d) => " --max-depth="@ + decimal(d as nat),
        None => Seq::empty(),
    }) + " 2>/dev/null"@
}

/// The path of a search in files, or why there is none: the path cannot be built, or there
/// is nothing to search for.
pub open spec fn grep_path(
    base_path: Option<Seq<char>>,
    path: Seq<char>,
    pattern: Seq<char>,
) -> Result<Seq<char>, ErrorView> {
    match remote_path(base_path, path) {
        Err(e) => Err(e),
        Ok(full) => if trimmed(pattern).len() == 0 {
            Err(ErrorView::Other { message: "Search pattern required"@ })
        } else {
            Ok(full)
        },
    }
}

/// Builds the path of a search in files.
fn checked_grep_path(base_path: Option<&str>, path: &str, pattern: &str) -> (r: Result<
    String,
    Error,
>)
    ensures
        text_result(r) == grep_path(opt_str(base_path), path@, pattern@),
{
    let full_path = match join_remote_path(base_path, path) {
        Ok(p) => p,
        Err(e) => {
            return Err(e);
        },
    };
    if trim(pattern).unicode_len() == 0 {
        return Err(Error::Other { message: String::from_str("Search pattern required") });
    }
    Ok(full_path)
}

/// The command that searches the files below a path for a pattern.
pub fn grep_command(
    base_path: Option<&str>,
    path: &str,
    pattern: &str,
    name_filter: Option<&str>,
    max_depth: Option<u32>,
    case_insensitive: bool,
) -> (r: Result<String, Error>)
    ensures
        text_result(r) == match grep_path(opt_str(base_path), path@, pattern@) {
            Ok(full) => Ok::<Seq<char>, ErrorView>(
                grep_command_text(
                    full,
                    pattern@,
                    opt_str(name_filter),
                    max_depth,
                    case_insensitive,
                ),
            ),
            Err(e) => Err(e),
        },
{
    let full_path = match checked_grep_path(base_path, path, pattern) {
        Ok(p) => p,
        Err(e) => {
            return Err(e);
        },
    };
    let mut cmd = if case_insensitive {
        String::from_str("grep -rni ")
    } else {
        String::from_str("grep -rn ")
    };
    proof {
        reveal_strlit("grep -rni ");
        reveal_strlit("grep -rn ");
        reveal_strlit("grep ");
        reveal_strlit("-rni");
        reveal_strlit("-rn");
        reveal_strlit(" ");
        assert("grep -rni "@ =~= "grep "@ + "-rni"@ + " "@);
        assert("grep -rn "@ =~= "grep "@ + "-rn"@ + " "@);
    }
    cmd.append(quote_path(pattern).as_str());
    cmd.append(" ");
    cmd.append(quote_path(full_path.as_str()).as_str());
    let ghost start = cmd@;
    match name_filter {
        Some(name) => {
            cmd.append(" --include=");
            cmd.append(quote_path(name).as_str());
            assert(cmd@ =~= start + (" --include="@ + quoted(name@)));
        },
        None => {
            assert(cmd@ + Seq::<char>::empty() =~= cmd@);
        },
    }
    let ghost with_name = cmd@;
    match max_depth {
        Some(depth) => {
            cmd.append(" --max-depth=");
            cmd.append(format_u32(depth).as_str());
            assert(cmd@ =~= with_name + (" --max-depth="@ + decimal(depth as nat)));
        },
        None => {
            assert(cmd@ + Seq::<char>::empty() =~= cmd@);
        },
    }
    cmd.append(" 2>/dev/null");
    Ok(cmd)
}

/// The lines that were found, from the output of the command that `grep_command` wrote.
/// That `grep` found nothing is no failure.
pub fn grep(base_path: Option<&str>, path: &str, pattern: &str, output: &CommandOutput) -> (r:
    Result<GrepResult, Error>)
    ensures
        match grep_path(opt_str(base_path), path@, pattern@) {
            Err(e) => r is Err && r->Err_0@ == e,
            Ok(full) => r is Ok && opt_text(r->Ok_0.base_path) == opt_str(base_path)
                && r->Ok_0.path@ == full && r->Ok_0.pattern@ == pattern@ && match_views(
                r->Ok_0.matches@,
            ) == grep_lines(lines_of(output.stdout@)),
        },
{
    let full_path = match checked_grep_path(base_path, path, pattern) {
        Ok(p) => p,
        Err(e) => {
            return Err(e);
        },
    };
    let matches = parse_grep_output(output.stdout.as_str());
    Ok(
        GrepResult {
            base_path: owned(base_path),
            path: full_path,
            pattern: String::from_str(pattern),
            matches,
        },
    )
}

} // verus!
