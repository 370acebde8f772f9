//! JSON text: what is written and read through `serde_json`, and the shapes of input that
//! the command line tells apart.

use vstd::prelude::*;
use vstd::string::*;
use crate::error::{text_result, Error, ErrorView};
use crate::numbers::{parse_usize, parsed_unsigned};
use crate::split::{
    find_last_char, has_prefix, last_index, lemma_last_index, replace, replaced, slice_chars,
    starts_with,
};
use crate::text::{
    chars_of, concat, opt_text, opt_texts, same_text, starts_with_char, string_of, texts, trim,
    trim_start, trim_start_of, trimmed,
};

verus! {

/// The JSON string literal that `serde_json` writes for a text.
pub uninterp spec fn json_string_literal(s: Seq<char>) -> Option<Seq<char>>;

/// The list of strings that `serde_json` reads from a JSON text, where it is one.
pub uninterp spec fn json_text_list(json: Seq<char>) -> Option<Seq<Seq<char>>>;

/// Calls `serde_json::to_string` on a string slice. The result is the JSON string literal
/// for the text, quoted and escaped as `serde_json` does it; `None` stands for an error of
/// the serializer.
#[verifier::external_body]
pub(crate) fn quote_json(s: &str) -> (r: Option<String>)
    ensures
        opt_text(r) == json_string_literal(s@),
{
    serde_json::to_string(s).ok()
}

/// Calls `serde_json::from_str` for a `Vec<String>`. The result is the list that the text
/// holds; `None` where the text is not a JSON array of strings.
#[verifier::external_body]
pub(crate) fn read_text_list(json: &str) -> (r: Option<Vec<String>>)
    ensures
        opt_texts(r) == json_text_list(json@),
{
    serde_json::from_str::<Vec<String>>(json).ok()
}

/// The first character of the text that is not white space is `c`.
pub open spec fn opens_with(input: Seq<char>, c: char) -> bool {
    trim_start_of(input).len() > 0 && trim_start_of(input)[0] == c
}

/// Whether the input is a JSON object rather than a plain id: it opens with a brace.
pub fn is_json_input(input: &str) -> (r: bool)
    ensures
        r == opens_with(input@, '{'),
{
    starts_with_char(trim_start(input), '{')
}

/// Whether the input is a JSON array: it opens with a bracket.
pub fn is_json_array(input: &str) -> (r: bool)
    ensures
        r == opens_with(input@, '['),
{
    starts_with_char(trim_start(input), '[')
}

/// Where a JSON text given on the command line is to be read from.
#[derive(Debug)]
pub enum JsonSource {
    /// The standard input.
    Stdin,
    /// The file with the path.
    File(String),
    /// The text itself.
    Inline(String),
}

pub enum JsonSourceView {
    Stdin,
    File(Seq<char>),
    Inline(Seq<char>),
}

impl View for JsonSource {
    type V = JsonSourceView;

    open spec fn view(&self) -> JsonSourceView {
        match *self {
            JsonSource::Stdin => JsonSourceView::Stdin,
            JsonSource::File(p) => JsonSourceView::File(p@),
            JsonSource::Inline(t) => JsonSourceView::Inline(t@),
        }
    }
}

/// Where the JSON text for a spec comes from: the standard input for `-`, a file for `@`
/// and its path, else the spec itself. An `@` without a path is refused.
pub open spec fn json_source(spec: Seq<char>) -> Result<JsonSourceView, ErrorView> {
    if trimmed(spec) == "-"@ {
        Ok(JsonSourceView::Stdin)
    } else if spec.len() > 0 && spec[0] == '@' {
        if trimmed(spec.drop_first()).len() == 0 {
            Err(
                ErrorView::InvalidArgument {
                    field: "json"@,
                    message: "Invalid JSON spec '@' (missing file path)"@,
                    given: None,
                    tried: None,
                },
            )
        } else {
            Ok(JsonSourceView::File(spec.drop_first()))
        }
    } else {
        Ok(JsonSourceView::Inline(spec))
    }
}

/// What `read_json_spec` returned, with its strings as texts.
pub open spec fn source_view(r: Result<JsonSource, Error>) -> Result<JsonSourceView, ErrorView> {
    match r {
        Ok(s) => Ok(s@),
        Err(e) => Err(e@),
    }
}

/// Says where the JSON text for a spec is to be read from.
pub fn read_json_spec(spec: &str) -> (r: Result<JsonSource, Error>)
    ensures
        source_view(r) == json_source(spec@),
{
    if same_text(trim(spec), "-") {
        return Ok(JsonSource::Stdin);
    }
    if starts_with_char(spec, '@') {
        let v = chars_of(spec);
        let path = string_of(&slice_chars(&v, 1, v.len()));
        assert(path@ =~= spec@.drop_first());
        if trim(path.as_str()).unicode_len() == 0 {
            return Err(
                Error::InvalidArgument {
                    field: String::from_str("json"),
                    message: String::from_str("Invalid JSON spec '@' (missing file path)"),
                    given: None,
                    tried: None,
                },
            );
        }
        return Ok(JsonSource::File(path));
    }
    Ok(JsonSource::Inline(String::from_str(spec)))
}

/// A JSON pointer as it is used: empty for the whole document, else starting with a slash
/// and naming something.
pub open spec fn normal_pointer(pointer: Seq<char>) -> Result<Seq<char>, ErrorView> {
    if pointer.len() == 0 {
        Ok(pointer)
    } else if pointer == "/"@ {
        Err(
            ErrorView::InvalidArgument {
                field: "pointer"@,
                message: "Invalid JSON pointer '/'"@,
                given: None,
                tried: None,
            },
        )
    } else if pointer[0] != '/' {
        Err(
            ErrorView::InvalidArgument {
                field: "pointer"@,
                message: "JSON pointer must start with '/': "@ + pointer,
                given: None,
                tried: None,
            },
        )
    } else {
        Ok(pointer)
    }
}

/// Checks a JSON pointer.
pub fn normalize_pointer(pointer: &str) -> (r: Result<String, Error>)
    ensures
        text_result(r) == normal_pointer(pointer@),
{
    if pointer.unicode_len() == 0 {
        let empty = String::new();
        assert(empty@ =~= pointer@);
        return Ok(empty);
    }
    if same_text(pointer, "/") {
        return Err(
            Error::InvalidArgument {
                field: String::from_str("pointer"),
                message: String::from_str("Invalid JSON pointer '/'"),
                given: None,
                tried: None,
            },
        );
    }
    if !starts_with_char(pointer, '/') {
        return Err(
            Error::InvalidArgument {
                field: String::from_str("pointer"),
                message: concat("JSON pointer must start with '/': ", pointer),
                given: None,
                tried: None,
            },
        );
    }
    Ok(String::from_str(pointer))
}

/// A token of a JSON pointer with `~1` read as a slash and then `~0` as a tilde.
pub open spec fn unescaped(token: Seq<char>) -> Seq<char> {
    replaced(replaced(token, "~1"@, "/"@), "~0"@, "~"@)
}

/// Reads the escapes of a token of a JSON pointer.
pub fn unescape_token(token: &str) -> (r: String)
    ensures
        r@ == unescaped(token@),
{
    proof {
        reveal_strlit("~1");
        reveal_strlit("~0");
    }
    let first = replace(token, "~1", "/");
    replace(first.as_str(), "~0", "~")
}

/// The pointer to the parent and the last token of a pointer: what stands before its last
/// slash, and what stands after it with its escapes read. The empty pointer has neither.
pub open spec fn parent_and_token(pointer: Seq<char>) -> Option<(Seq<char>, Seq<char>)> {
    if pointer.len() == 0 {
        None
    } else {
        let at = last_index(pointer, '/');
        if at < 0 {
            Some((Seq::empty(), unescaped(pointer)))
        } else {
            Some((pointer.take(at), unescaped(pointer.skip(at + 1))))
        }
    }
}

/// The texts of an optional pair of strings.
pub open spec fn opt_pair_text(o: Option<(String, String)>) -> Option<(Seq<char>, Seq<char>)> {
    match o {
        Some((a, b)) => Some((a@, b@)),
        None => None,
    }
}

/// Splits a pointer into the pointer to the parent and the last token.
pub fn split_parent_pointer(pointer: &str) -> (r: Option<(String, String)>)
    ensures
        opt_pair_text(r) == parent_and_token(pointer@),
{
    let v = chars_of(pointer);
    if v.len() == 0 {
        return None;
    }
    proof {
        lemma_last_index(v@, '/');
    }
    match find_last_char(&v, '/') {
        Some(at) => {
            let parent = string_of(&slice_chars(&v, 0, at));
            let token = string_of(&slice_chars(&v, at + 1, v.len()));
            proof {
                assert(parent@ =~= pointer@.take(at as int));
                assert(token@ =~= pointer@.skip(at + 1));
            }
            Some((parent, unescape_token(token.as_str())))
        },
        None => Some((String::new(), unescape_token(pointer))),
    }
}

/// The place in an array that a token names.
pub open spec fn index_of_token(token: Seq<char>) -> Result<nat, ErrorView> {
    match parsed_unsigned(token, usize::MAX as nat) {
        Some(n) => Ok(n),
        None => Err(
            ErrorView::InvalidArgument {
                field: "arrayIndex"@,
                message: "Invalid array index token"@,
                given: Some(token),
                tried: None,
            },
        ),
    }
}

/// What `parse_index` returned, with its strings as texts.
pub open spec fn index_view(r: Result<usize, Error>) -> Result<nat, ErrorView> {
    match r {
        Ok(n) => Ok(n as nat),
        Err(e) => Err(e@),
    }
}

/// Reads a token as a place in an array.
pub fn parse_index(token: &str) -> (r: Result<usize, Error>)
    ensures
        index_view(r) == index_of_token(token@),
{
    match parse_usize(token) {
        Some(n) => Ok(n),
        None => Err(
            Error::InvalidArgument {
                field: String::from_str("arrayIndex"),
                message: String::from_str("Invalid array index token"),
                given: Some(String::from_str(token)),
                tried: None,
            },
        ),
    }
}

/// A flag of the command line with its value.
#[derive(Debug)]
pub struct FlagValue {
    pub key: String,
    pub value: String,
}

/// The flags of a list as pairs of key and value.
pub open spec fn flag_views(flags: Seq<FlagValue>) -> Seq<(Seq<char>, Seq<char>)> {
    Seq::new(flags.len(), |i: int| (flags[i].key@, flags[i].value@))
}

/// The error for an argument of the command line that cannot be read as a flag.
pub open spec fn flag_error(message: Seq<char>) -> ErrorView {
    ErrorView::InvalidArgument { field: "flag"@, message, given: None, tried: None }
}

/// The pairs, where there are any, behind the head.
pub open spec fn after(
    head: Seq<(Seq<char>, Seq<char>)>,
    rest: Result<Seq<(Seq<char>, Seq<char>)>, ErrorView>,
) -> Result<Seq<(Seq<char>, Seq<char>)>, ErrorView> {
    match rest {
        Ok(pairs) => Ok(head + pairs),
        Err(e) => Err(e),
    }
}

/// The flags that the arguments give: each `--key` with the argument that follows it as its
/// value. The first argument that is no flag where one is due, names no key or has no value
/// is refused.
pub open spec fn kv_pairs(args: Seq<Seq<char>>) -> Result<Seq<(Seq<char>, Seq<char>)>, ErrorView>
    decreases args.len(),
{
    if args.len() == 0 {
        Ok(Seq::empty())
    } else if !has_prefix(args[0], "--"@) {
        Err(flag_error("Expected flag starting with '--', got: "@ + args[0]))
    } else if args[0].len() == 2 {
        Err(flag_error("Empty flag name '--'"@))
    } else if args.len() < 2 {
        Err(flag_error("Flag '--"@ + args[0].skip(2) + "' requires a value"@))
    } else {
        after(seq![(args[0].skip(2), args[1])], kv_pairs(args.skip(2)))
    }
}

/// What `parse_kv_flags` returned, with its strings as texts.
pub open spec fn flags_view(r: Result<Vec<FlagValue>, Error>) -> Result<
    Seq<(Seq<char>, Seq<char>)>,
    ErrorView,
> {
    match r {
        Ok(flags) => Ok(flag_views(flags@)),
        Err(e) => Err(e@),
    }
}

/// An error for an argument of the command line that cannot be read as a flag.
fn refuse_flag(message: String) -> (r: Error)
    ensures
        r@ == flag_error(message@),
{
    Error::InvalidArgument { field: String::from_str("flag"), message, given: None, tried: None }
}

/// Reads the arguments `--key value --other value` as flags with their values.
pub fn parse_kv_flags(args: &Vec<String>) -> (r: Result<Vec<FlagValue>, Error>)
    ensures
        flags_view(r) == kv_pairs(texts(args@)),
{
    let ghost all = texts(args@);
    let mut out: Vec<FlagValue> = Vec::new();
    let mut i: usize = 0;
    proof {
        reveal_strlit("--");
        assert(all.skip(0) =~= all);
        assert(flag_views(out@) =~= Seq::<(Seq<char>, Seq<char>)>::empty());
        assert(after(flag_views(out@), kv_pairs(all)) == kv_pairs(all)) by {
            match kv_pairs(all) {
                Ok(pairs) => {
                    assert(flag_views(out@) + pairs =~= pairs);
                },
                Err(_) => {},
            }
        }
    }
    while i < args.len()
        invariant
            i <= args.len(),
            all == texts(args@),
            "--"@.len() == 2,
            kv_pairs(all) == after(flag_views(out@), kv_pairs(all.skip(i as int))),
        decreases args.len() - i,
    {
        let ghost rest = all.skip(i as int);
        let ghost head = flag_views(out@);
        assert(rest[0] == args@[i as int]@);
        let arg = args[i].as_str();
        if !starts_with(arg, "--") {
            return Err(refuse_flag(concat("Expected flag starting with '--', got: ", arg)));
        }
        let v = chars_of(arg);
        if v.len() == 2 {
            return Err(refuse_flag(String::from_str("Empty flag name '--'")));
        }
        let key = string_of(&slice_chars(&v, 2, v.len()));
        assert(key@ =~= rest[0].skip(2));
        if i + 1 >= args.len() {
            return Err(refuse_flag(crate::text::concat3("Flag '--", key.as_str(), "' requires a value")));
        }
        assert(rest[1] == args@[i + 1]@);
        let value = args[i + 1].clone();
        out.push(FlagValue { key, value });
        proof {
            assert(rest.skip(2) =~= all.skip(i + 2));
            assert(flag_views(out@) =~= head + seq![(rest[0].skip(2), rest[1])]);
            match kv_pairs(all.skip(i + 2)) {
                Ok(pairs) => {
                    assert(head + (seq![(rest[0].skip(2), rest[1])] + pairs) =~= flag_views(out@)
                        + pairs);
                },
                Err(_) => {},
            }
        }
        i += 2;
    }
    proof {
        assert(all.skip(args@.len() as int) =~= Seq::<Seq<char>>::empty());
        assert(flag_views(out@) + Seq::<(Seq<char>, Seq<char>)>::empty() =~= flag_views(out@));
    }
    Ok(out)
}

/// What is read from a JSON text that names an operation.
#[derive(Debug)]
pub struct OpPayload<T> {
    pub op: String,
    pub data: T,
}

/// The error for a payload that names another operation than the one that is due.
pub open spec fn unexpected_op(op: Seq<char>, expected: Seq<char>) -> ErrorView {
    ErrorView::InvalidArgument {
        field: "op"@,
        message: "Unexpected op '"@ + op + "'"@,
        given: Some(expected),
        tried: Some(seq![expected]),
    }
}

/// The data of a payload, where it names the operation that is due.
pub fn load_op_data<T>(payload: OpPayload<T>, expected_op: &str) -> (r: Result<T, Error>)
    ensures
        payload.op@ == expected_op@ ==> r == Ok::<T, Error>(payload.data),
        payload.op@ != expected_op@ ==> r is Err && r->Err_0@ == unexpected_op(
            payload.op@,
            expected_op@,
        ),
{
    if !same_text(payload.op.as_str(), expected_op) {
        let mut tried: Vec<String> = Vec::new();
        tried.push(String::from_str(expected_op));
        assert(texts(tried@) =~= seq![expected_op@]);
        return Err(
            Error::InvalidArgument {
                field: String::from_str("op"),
                message: crate::text::concat3("Unexpected op '", payload.op.as_str(), "'"),
                given: Some(String::from_str(expected_op)),
                tried: Some(tried),
            },
        );
    }
    Ok(payload.data)
}

/// How many items of a bulk operation succeeded and failed.
#[derive(Clone, Copy, Debug, PartialEq, Eq, Structural)]
pub struct BulkSummary {
    pub total: usize,
    pub succeeded: usize,
    pub failed: usize,
}

/// What became of one item of a bulk operation: its result, or the error.
#[derive(Debug)]
pub struct ItemOutcome<T> {
    pub id: String,
    pub result: Option<T>,
    pub error: Option<String>,
}

/// What a bulk operation did: the outcome of each item, and how many went well.
#[derive(Debug)]
pub struct BulkResult<T> {
    pub action: String,
    pub results: Vec<ItemOutcome<T>>,
    pub summary: BulkSummary,
}

/// How many of the first `n` outcomes hold an error.
pub open spec fn failures<T>(results: Seq<ItemOutcome<T>>, n: int) -> int
    decreases n,
{
    if n <= 0 {
        0
    } else {
        failures(results, n - 1) + if results[n - 1].error is Some {
            1int
        } else {
            0int
        }
    }
}

/// The result of a bulk operation with the outcomes: an item counts as failed where it
/// holds an error.
pub fn bulk_result<T>(action: &str, results: Vec<ItemOutcome<T>>) -> (r: BulkResult<T>)
    ensures
        r.action@ == action@,
        r.results == results,
        r.summary.total == results@.len(),
        r.summary.failed == failures(results@, results@.len() as int),
        r.summary.succeeded + r.summary.failed == r.summary.total,
{
    let mut failed: usize = 0;
    let mut i: usize = 0;
    while i < results.len()
        invariant
            i <= results.len(),
            failed <= i,
            failed == failures(results@, i as int),
        decreases results.len() - i,
    {
        if results[i].error.is_some() {
            failed += 1;
        }
        i += 1;
    }
    let total = results.len();
    BulkResult {
        action: String::from_str(action),
        results,
        summary: BulkSummary { total, succeeded: total - failed, failed },
    }
}

/// The ids of the components that a bulk operation is to work on.
#[derive(Debug)]
pub struct BulkIdsInput {
    pub component_ids: Vec<String>,
}

/// What a merge into a stored record changed.
#[derive(Debug)]
pub struct MergeResult {
    pub id: String,
    pub updated_fields: Vec<String>,
}

/// What a removal from a stored record changed.
#[derive(Debug)]
pub struct RemoveResult {
    pub id: String,
    pub removed_from: Vec<String>,
}

} // verus!
