//! Paths on a remote machine, taken relative to the base path of a project.

use vstd::prelude::*;
use vstd::string::*;
use crate::error::{text_result, Error, ErrorView};
use crate::text::{concat, concat3, ends_with_char, opt_str, starts_with_char, trim, trimmed};

verus! {

/// The base path without the white space around it, where anything is left of it.
pub open spec fn resolved_base(base_path: Option<Seq<char>>) -> Option<Seq<char>> {
    match base_path {
        Some(value) => if trimmed(value).len() == 0 {
            None
        } else {
            Some(trimmed(value))
        },
        None => None,
    }
}

/// The base path without the white space around it; none where nothing is left of it.
pub fn resolve_optional_base_path<'a>(base_path: Option<&'a str>) -> (r: Option<&'a str>)
    ensures
        opt_str(r) == resolved_base(opt_str(base_path)),
{
    match base_path {
        Some(value) => {
            let t = trim(value);
            if t.unicode_len() == 0 {
                None
            } else {
                Some(t)
            }
        },
        None => None,
    }
}

/// `dir` and `name` with one slash between them.
pub open spec fn slash_joined(dir: Seq<char>, name: Seq<char>) -> Seq<char> {
    if dir.len() > 0 && dir.last() == '/' {
        dir + name
    } else {
        dir + "/"@ + name
    }
}

/// The path on the remote machine: the path itself where it starts at the root, else the
/// path below the base path. An empty path is refused, and so is a relative one where there
/// is no base path.
pub open spec fn remote_path(base_path: Option<Seq<char>>, path: Seq<char>) -> Result<
    Seq<char>,
    ErrorView,
> {
    let p = trimmed(path);
    if p.len() == 0 {
        Err(
            ErrorView::InvalidArgument {
                field: "path"@,
                message: "Path cannot be empty"@,
                given: None,
                tried: None,
            },
        )
    } else if p[0] == '/' {
        Ok(p)
    } else {
        match resolved_base(base_path) {
            None => Err(ErrorView::MissingKey { key: "base_path"@ }),
            Some(base) => Ok(slash_joined(base, p)),
        }
    }
}

/// The path of a child of a directory on the remote machine. An empty child is refused.
pub open spec fn remote_child(
    base_path: Option<Seq<char>>,
    dir: Seq<char>,
    child: Seq<char>,
) -> Result<Seq<char>, ErrorView> {
    match remote_path(base_path, dir) {
        Err(e) => Err(e),
        Ok(dir_path) => if trimmed(child).len() == 0 {
            Err(
                ErrorView::InvalidArgument {
                    field: "child"@,
                    message: "Child path cannot be empty"@,
                    given: None,
                    tried: None,
                },
            )
        } else {
            Ok(slash_joined(dir_path, trimmed(child)))
        },
    }
}

/// `dir` and `name` with one slash between them.
pub fn join_with_slash(dir: &str, name: &str) -> (r: String)
    ensures
        r@ == slash_joined(dir@, name@),
{
    if ends_with_char(dir, '/') {
        concat(dir, name)
    } else {
        concat3(dir, "/", name)
    }
}

/// Builds the path on the remote machine.
pub fn join_remote_path(base_path: Option<&str>, path: &str) -> (r: Result<String, Error>)
    ensures
        text_result(r) == remote_path(opt_str(base_path), path@),
{
    let path = trim(path);
    if path.unicode_len() == 0 {
        return Err(
            Error::InvalidArgument {
                field: String::from_str("path"),
                message: String::from_str("Path cannot be empty"),
                given: None,
                tried: None,
            },
        );
    }
    if starts_with_char(path, '/') {
        return Ok(String::from_str(path));
    }
    match resolve_optional_base_path(base_path) {
        Some(base) => Ok(join_with_slash(base, path)),
        None => Err(Error::MissingKey { key: String::from_str("base_path") }),
    }
}

/// Builds the path of a child of a directory on the remote machine.
pub fn join_remote_child(base_path: Option<&str>, dir: &str, child: &str) -> (r: Result<
    String,
    Error,
>)
    ensures
        text_result(r) == remote_child(opt_str(base_path), dir@, child@),
{
    let dir_path = match join_remote_path(base_path, dir) {
        Ok(p) => p,
        Err(e) => {
            return Err(e);
        },
    };
    let child = trim(child);
    if child.unicode_len() == 0 {
        return Err(
            Error::InvalidArgument {
                field: String::from_str("child"),
                message: String::from_str("Child path cannot be empty"),
                given: None,
                tried: None,
            },
        );
    }
    Ok(join_with_slash(dir_path.as_str(), child))
}

} // verus!
