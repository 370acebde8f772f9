//! Commands for the shell of a remote machine.

use vstd::prelude::*;
use vstd::string::*;
use crate::error::{text_result, Error, ErrorView};
use crate::split::{replace, replaced};
use crate::text::{concat3, trim, trimmed};

verus! {

/// The text as one word of the shell: in single quotes, each single quote of the text
/// written as a closing quote, an escaped quote and an opening quote.
pub open spec fn quoted(s: Seq<char>) -> Seq<char> {
    "'"@ + replaced(s, "'"@, "'\\''"@) + "'"@
}

/// Quotes a path for the shell.
pub fn quote_path(path: &str) -> (r: String)
    ensures
        r@ == quoted(path@),
{
    proof {
        reveal_strlit("'");
    }
    let inner = replace(path, "'", "'\\''");
    concat3("'", inner.as_str(), "'")
}

/// The command that runs `command` in the directory. A directory without a name is refused.
pub open spec fn in_directory(dir: Seq<char>, command: Seq<char>) -> Result<Seq<char>, ErrorView> {
    if trimmed(dir).len() == 0 {
        Err(
            ErrorView::InvalidArgument {
                field: "path"@,
                message: "Directory cannot be empty"@,
                given: None,
                tried: None,
            },
        )
    } else {
        Ok("cd "@ + quoted(dir) + " && "@ + command)
    }
}

/// Writes the command that changes to the directory and then runs `command`.
pub fn cd_and(dir: &str, command: &str) -> (r: Result<String, Error>)
    ensures
        text_result(r) == in_directory(dir@, command@),
{
    if trim(dir).unicode_len() == 0 {
        return Err(
            Error::InvalidArgument {
                field: String::from_str("path"),
                message: String::from_str("Directory cannot be empty"),
                given: None,
                tried: None,
            },
        );
    }
    let quoted_dir = quote_path(dir);
    let mut out = concat3("cd ", quoted_dir.as_str(), " && ");
    out.append(command);
    Ok(out)
}

} // verus!
