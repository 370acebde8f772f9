//! Log files on a remote machine: the commands that show, follow, clear and search them, and
//! what their output means.

use vstd::prelude::*;
use vstd::string::*;
use crate::base_path::{join_remote_path, remote_path};
use crate::error::{text_result, Error, ErrorView};
use crate::numbers::{decimal, format_u32, parse_u32, parsed_unsigned};
use crate::shell::{quote_path, quoted};
use crate::split::{find_char, first_index, lemma_first_index, lines, lines_of, slice_chars};
use crate::ssh::CommandOutput;
use crate::text::{chars_of, concat, concat3, copy_opt_text, opt_str, opt_text, string_of, texts};

verus! {

/// A log file that a project keeps at hand.
#[derive(Debug)]
pub struct PinnedLog {
    pub path: String,
    pub label: Option<String>,
    pub tail_lines: u32,
}

/// A log file that can be shown.
#[derive(Debug)]
pub struct LogEntry {
    pub path: String,
    pub label: Option<String>,
    pub tail_lines: u32,
}

/// The end of a log file.
#[derive(Debug)]
pub struct LogContent {
    pub path: String,
    pub lines: u32,
    pub content: String,
}

/// A line of a log file that holds what was searched for.
#[derive(Debug)]
pub struct LogSearchMatch {
    pub line_number: u32,
    pub content: String,
}

/// The lines of a log file that hold what was searched for.
#[derive(Debug)]
pub struct LogSearchResult {
    pub path: String,
    pub pattern: String,
    pub matches: Vec<LogSearchMatch>,
    pub match_count: usize,
}

/// The log files that a project keeps at hand, in order.
pub fn list(pinned: &Vec<PinnedLog>) -> (r: Vec<LogEntry>)
    ensures
        r@.len() == pinned@.len(),
        forall|i: int|
            0 <= i < pinned@.len() ==> (#[trigger] r@[i]).path@ == pinned@[i].path@ && opt_text(
                r@[i].label,
            ) == opt_text(pinned@[i].label) && r@[i].tail_lines == pinned@[i].tail_lines,
{
    let mut out: Vec<LogEntry> = Vec::new();
    let mut i: usize = 0;
    while i < pinned.len()
        invariant
            i <= pinned.len(),
            out@.len() == i,
            forall|j: int|
                0 <= j < i ==> (#[trigger] out@[j]).path@ == pinned@[j].path@ && opt_text(
                    out@[j].label,
                ) == opt_text(pinned@[j].label) && out@[j].tail_lines == pinned@[j].tail_lines,
        decreases pinned.len() - i,
    {
        out.push(
            LogEntry {
                path: pinned[i].path.clone(),
                label: copy_opt_text(&pinned[i].label),
                tail_lines: pinned[i].tail_lines,
            },
        );
        i += 1;
    }
    out
}

/// The command that prints the last lines of a file.
pub open spec fn tail_command(lines: u32, full_path: Seq<char>) -> Seq<char> {
    "tail -n "@ + decimal(lines as nat) + " "@ + quoted(full_path)
}

/// The command that prints a file as it grows.
pub open spec fn follow_command(full_path: Seq<char>) -> Seq<char> {
    "tail -f "@ + quoted(full_path)
}

/// The command that empties a file.
pub open spec fn clear_command_text(full_path: Seq<char>) -> Seq<char> {
    ": > "@ + quoted(full_path)
}

/// The command that shows the last lines of a log file.
pub fn show_command(base_path: Option<&str>, path: &str, lines: u32) -> (r: Result<String, Error>)
    ensures
        text_result(r) == match remote_path(opt_str(base_path), path@) {
            Ok(full) => Ok::<Seq<char>, ErrorView>(tail_command(lines, full)),
            Err(e) => Err(e),
        },
{
    let full_path = match join_remote_path(base_path, path) {
        Ok(p) => p,
        Err(e) => {
            return Err(e);
        },
    };
    let count = format_u32(lines);
    let quoted_path = quote_path(full_path.as_str());
    let mut command = concat3("tail -n ", count.as_str(), " ");
    command.append(quoted_path.as_str());
    Ok(command)
}

/// What a command that must succeed gives: its output, or the failure.
pub open spec fn checked(command: Seq<char>, output: CommandOutput) -> Result<Seq<char>, ErrorView> {
    if output.success {
        Ok(output.stdout@)
    } else {
        Err(
            ErrorView::Remote { command, exit_code: output.exit_code, stderr: output.stderr@ },
        )
    }
}

/// The end of a log file, from the output of the command that `show_command` wrote. A
/// command that failed is reported as the error.
pub fn show(base_path: Option<&str>, path: &str, lines: u32, output: CommandOutput) -> (r: Result<
    LogContent,
    Error,
>)
    ensures
        match remote_path(opt_str(base_path), path@) {
            Err(e) => r is Err && r->Err_0@ == e,
            Ok(full) => match checked(tail_command(lines, full), output) {
                Err(e) => r is Err && r->Err_0@ == e,
                Ok(content) => r is Ok && r->Ok_0.path@ == full && r->Ok_0.lines == lines
                    && r->Ok_0.content@ == content,
            },
        },
{
    let full_path = match join_remote_path(base_path, path) {
        Ok(p) => p,
        Err(e) => {
            return Err(e);
        },
    };
    if !output.success {
        let command = match show_command(base_path, path, lines) {
            Ok(c) => c,
            Err(e) => {
                return Err(e);
            },
        };
        return Err(
            Error::Remote { command, exit_code: output.exit_code, stderr: output.stderr },
        );
    }
    Ok(LogContent { path: full_path, lines, content: output.stdout })
}

/// The command that follows a log file at the terminal.
pub fn follow(base_path: Option<&str>, path: &str) -> (r: Result<String, Error>)
    ensures
        text_result(r) == match remote_path(opt_str(base_path), path@) {
            Ok(full) => Ok::<Seq<char>, ErrorView>(follow_command(full)),
            Err(e) => Err(e),
        },
{
    let full_path = match join_remote_path(base_path, path) {
        Ok(p) => p,
        Err(e) => {
            return Err(e);
        },
    };
    let quoted_path = quote_path(full_path.as_str());
    Ok(concat("tail -f ", quoted_path.as_str()))
}

/// The command that empties a log file.
pub fn clear_command(base_path: Option<&str>, path: &str) -> (r: Result<String, Error>)
    ensures
        text_result(r) == match remote_path(opt_str(base_path), path@) {
            Ok(full) => Ok::<Seq<char>, ErrorView>(clear_command_text(full)),
            Err(e) => Err(e),
        },
{
    let full_path = match join_remote_path(base_path, path) {
        Ok(p) => p,
        Err(e) => {
            return Err(e);
        },
    };
    let quoted_path = quote_path(full_path.as_str());
    Ok(concat(": > ", quoted_path.as_str()))
}

/// The path of the log file that was emptied, from the output of the command that
/// `clear_command` wrote. A command that failed is reported as the error.
pub fn clear(base_path: Option<&str>, path: &str, output: CommandOutput) -> (r: Result<
    String,
    Error,
>)
    ensures
        match remote_path(opt_str(base_path), path@) {
            Err(e) => r is Err && r->Err_0@ == e,
            Ok(full) => match checked(clear_command_text(full), output) {
                Err(e) => r is Err && r->Err_0@ == e,
                Ok(_) => r is Ok && r->Ok_0@ == full,
            },
        },
{
    let full_path = match join_remote_path(base_path, path) {
        Ok(p) => p,
        Err(e) => {
            return Err(e);
        },
    };
    if !output.success {
        let command = match clear_command(base_path, path) {
            Ok(c) => c,
            Err(e) => {
                return Err(e);
            },
        };
        return Err(
            Error::Remote { command, exit_code: output.exit_code, stderr: output.stderr },
        );
    }
    Ok(full_path)
}

/// The flags of `grep` for a search in a log file.
pub open spec fn grep_flags(case_insensitive: bool, context: Option<u32>) -> Seq<char> {
    "-n"@ + (if case_insensitive {
        "i"@
    } else {
        Seq::empty()
    }) + match context {
        Some(n) => " -C "@ + decimal(n as nat),
        None => Seq::empty(),
    }
}

/// The command that searches a log file, or its last lines where `lines` is given.
pub open spec fn search_command_text(
    full_path: Seq<char>,
    pattern: Seq<char>,
    case_insensitive: bool,
    lines: Option<u32>,
    context: Option<u32>,
) -> Seq<char> {
    let flags = grep_flags(case_insensitive, context);
    match lines {
        Some(n) => "tail -n "@ + decimal(n as nat) + " "@ + quoted(full_path) + " | grep "@ + flags
            + " "@ + quoted(pattern),
        None => "grep "@ + flags + " "@ + quoted(pattern) + " "@ + quoted(full_path),
    }
}

/// The command that searches a log file for a pattern.
pub fn search_command(
    base_path: Option<&str>,
    path: &str,
    pattern: &str,
    case_insensitive: bool,
    lines: Option<u32>,
    context: Option<u32>,
) -> (r: Result<String, Error>)
    ensures
        text_result(r) == match remote_path(opt_str(base_path), path@) {
            Ok(full) => Ok::<Seq<char>, ErrorView>(
                search_command_text(full, pattern@, case_insensitive, lines, context),
            ),
            Err(e) => Err(e),
        },
{
    let full_path = match join_remote_path(base_path, path) {
        Ok(p) => p,
        Err(e) => {
            return Err(e);
        },
    };
    let mut flags = String::from_str("-n");
    if case_insensitive {
        flags.append("i");
    } else {
        assert(flags@ + Seq::<char>::empty() =~= flags@);
    }
    let ghost head = flags@;
    match context {
        Some(n) => {
            flags.append(" -C ");
            flags.append(format_u32(n).as_str());
            assert(flags@ =~= head + (" -C "@ + decimal(n as nat)));
        },
        None => {
            assert(flags@ + Seq::<char>::empty() =~= flags@);
        },
    }
    let quoted_path = quote_path(full_path.as_str());
    let quoted_pattern = quote_path(pattern);
    let command = match lines {
        Some(n) => {
            let mut c = concat3("tail -n ", format_u32(n).as_str(), " ");
            c.append(quoted_path.as_str());
            c.append(" | grep ");
            c.append(flags.as_str());
            c.append(" ");
            c.append(quoted_pattern.as_str());
            c
        },
        None => {
            let mut c = concat3("grep ", flags.as_str(), " ");
            c.append(quoted_pattern.as_str());
            c.append(" ");
            c.append(quoted_path.as_str());
            c
        },
    };
    Ok(command)
}

/// The number and the text of a line of `grep -n`: the number stands before the first colon,
/// or, in a line without a colon, before the first dash. A line whose start is no number
/// holds no match.
pub open spec fn grep_line(line: Seq<char>) -> Option<(u32, Seq<char>)> {
    let colon = first_index(line, ':');
    let dash = first_index(line, '-');
    let at = if colon < line.len() {
        colon
    } else {
        dash
    };
    if line.len() == 0 || at >= line.len() {
        None
    } else {
        match parsed_unsigned(line.take(at), u32::MAX as nat) {
            Some(n) => Some((n as u32, line.skip(at + 1))),
            None => None,
        }
    }
}

/// The matches in the lines, in order.
pub open spec fn grep_lines(lines: Seq<Seq<char>>) -> Seq<(u32, Seq<char>)>
    decreases lines.len(),
{
    if lines.len() == 0 {
        Seq::empty()
    } else {
        grep_lines(lines.drop_last()) + match grep_line(lines.last()) {
            Some(m) => seq![m],
            None => Seq::empty(),
        }
    }
}

/// The matches of a list, as pairs of number and text.
pub open spec fn match_views(matches: Seq<LogSearchMatch>) -> Seq<(u32, Seq<char>)> {
    Seq::new(matches.len(), |i: int| (matches[i].line_number, matches[i].content@))
}

/// Reads a line of `grep -n`.
fn parse_grep_line(line: &str) -> (r: Option<LogSearchMatch>)
    ensures
        match r {
            Some(m) => grep_line(line@) == Some((m.line_number, m.content@)),
            None => grep_line(line@) is None,
        },
{
    let v = chars_of(line);
    if v.len() == 0 {
        return None;
    }
    proof {
        lemma_first_index(line@, ':');
        lemma_first_index(line@, '-');
    }
    let at = match find_char(line, ':') {
        Some(c) => c,
        None => match find_char(line, '-') {
            Some(d) => d,
            None => {
                return None;
            },
        },
    };
    let number = string_of(&slice_chars(&v, 0, at));
    assert(number@ =~= line@.take(at as int));
    match parse_u32(number.as_str()) {
        Some(line_number) => {
            let content = string_of(&slice_chars(&v, at + 1, v.len()));
            assert(content@ =~= line@.skip(at + 1));
            Some(LogSearchMatch { line_number, content })
        },
        None => None,
    }
}

/// Reads the output of `grep -n`.
pub fn parse_grep_output(output: &str) -> (r: Vec<LogSearchMatch>)
    ensures
        match_views(r@) == grep_lines(lines_of(output@)),
{
    let all = lines(output);
    let ghost lv = texts(all@);
    let mut matches: Vec<LogSearchMatch> = Vec::new();
    let mut i: usize = 0;
    assert(lv.take(0) =~= Seq::<Seq<char>>::empty());
    assert(match_views(matches@) =~= Seq::<(u32, Seq<char>)>::empty());
    while i < all.len()
        invariant
            i <= all.len(),
            lv == texts(all@),
            match_views(matches@) == grep_lines(lv.take(i as int)),
        decreases all.len() - i,
    {
        proof {
            assert(lv.take(i + 1).drop_last() =~= lv.take(i as int));
            assert(lv.take(i + 1).last() == all@[i as int]@);
        }
        let ghost before = match_views(matches@);
        match parse_grep_line(all[i].as_str()) {
            Some(m) => {
                let ghost pair = (m.line_number, m.content@);
                matches.push(m);
                assert(match_views(matches@) =~= before + seq![pair]);
            },
            None => {
                assert(before + Seq::<(u32, Seq<char>)>::empty() =~= before);
            },
        }
        i += 1;
    }
    proof {
        assert(lv.take(all@.len() as int) =~= lv);
    }
    matches
}

/// The lines of a log file that hold the pattern, from the output of the command that
/// `search_command` wrote. That `grep` found nothing is no failure.
pub fn search(base_path: Option<&str>, path: &str, pattern: &str, output: &CommandOutput) -> (r:
    Result<LogSearchResult, Error>)
    ensures
        match remote_path(opt_str(base_path), path@) {
            Err(e) => r is Err && r->Err_0@ == e,
            Ok(full) => r is Ok && r->Ok_0.path@ == full && r->Ok_0.pattern@ == pattern@
                && match_views(r->Ok_0.matches@) == grep_lines(lines_of(output.stdout@))
                && r->Ok_0.match_count == r->Ok_0.matches@.len(),
        },
{
    let full_path = match join_remote_path(base_path, path) {
        Ok(p) => p,
        Err(e) => {
            return Err(e);
        },
    };
    let matches = parse_grep_output(output.stdout.as_str());
    let match_count = matches.len();
    Ok(LogSearchResult { path: full_path, pattern: String::from_str(pattern), matches, match_count })
}

} // verus!
