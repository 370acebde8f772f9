//! Stored configuration records: the tally of a batch, and ids that resemble a mistyped one.

use vstd::prelude::*;
use vstd::string::*;
use crate::error::{Error, ErrorView};
use crate::split::{ends_with, has_suffix, slice_chars};
use crate::json::{MergeResult, RemoveResult};
use crate::text::{
    chars_of, concat, concat3, lowercase, lowercase_of, opt_str, opt_text, same_text, sort_texts,
    sorted_of, string_of, texts,
};
use crate::tree::{
    get_text, lemma_array_view, lemma_object_view, member_views, merge_config, merged,
    remove_config, removed_from, take_member, text_at, unusable, without_items, without_member,
    Json, JsonView,
};

verus! {

/// One record of a batch and what became of it.
#[derive(Debug)]
pub struct BatchResultItem {
    pub id: String,
    pub status: String,
    pub error: Option<String>,
}

pub struct BatchItemView {
    pub id: Seq<char>,
    pub status: Seq<char>,
    pub error: Option<Seq<char>>,
}

impl View for BatchResultItem {
    type V = BatchItemView;

    open spec fn view(&self) -> BatchItemView {
        BatchItemView { id: self.id@, status: self.status@, error: opt_text(self.error) }
    }
}

/// The tally of a batch of records.
#[derive(Debug)]
pub struct BatchResult {
    pub created: u32,
    pub skipped: u32,
    pub errors: u32,
    pub items: Vec<BatchResultItem>,
}

/// The items of a tally, in order.
pub open spec fn item_views(items: Seq<BatchResultItem>) -> Seq<BatchItemView> {
    Seq::new(items.len(), |i: int| items[i]@)
}

impl BatchResult {
    /// The tally of an empty batch.
    pub fn new() -> (r: Self)
        ensures
            r.created == 0,
            r.skipped == 0,
            r.errors == 0,
            r.items@.len() == 0,
    {
        Self { created: 0, skipped: 0, errors: 0, items: Vec::new() }
    }

    /// Counts a record that was created.
    pub fn record_created(&mut self, id: String)
        requires
            old(self).created < u32::MAX,
        ensures
            final(self).created == old(self).created + 1,
            final(self).skipped == old(self).skipped,
            final(self).errors == old(self).errors,
            item_views(final(self).items@) == item_views(old(self).items@).push(
                BatchItemView { id: id@, status: "created"@, error: None },
            ),
    {
        self.created += 1;
        let ghost before = item_views(self.items@);
        self.items.push(BatchResultItem { id, status: String::from_str("created"), error: None });
        assert(item_views(self.items@) =~= before.push(
            BatchItemView { id: id@, status: "created"@, error: None },
        ));
    }

    /// Counts a record that was left as it was.
    pub fn record_skipped(&mut self, id: String)
        requires
            old(self).skipped < u32::MAX,
        ensures
            final(self).created == old(self).created,
            final(self).skipped == old(self).skipped + 1,
            final(self).errors == old(self).errors,
            item_views(final(self).items@) == item_views(old(self).items@).push(
                BatchItemView { id: id@, status: "skipped"@, error: None },
            ),
    {
        self.skipped += 1;
        let ghost before = item_views(self.items@);
        self.items.push(BatchResultItem { id, status: String::from_str("skipped"), error: None });
        assert(item_views(self.items@) =~= before.push(
            BatchItemView { id: id@, status: "skipped"@, error: None },
        ));
    }

    /// Counts a record that was refused, with the reason.
    pub fn record_error(&mut self, id: String, error: String)
        requires
            old(self).errors < u32::MAX,
        ensures
            final(self).created == old(self).created,
            final(self).skipped == old(self).skipped,
            final(self).errors == old(self).errors + 1,
            item_views(final(self).items@) == item_views(old(self).items@).push(
                BatchItemView { id: id@, status: "error"@, error: Some(error@) },
            ),
    {
        self.errors += 1;
        let ghost before = item_views(self.items@);
        self.items.push(
            BatchResultItem { id, status: String::from_str("error"), error: Some(error) },
        );
        assert(item_views(self.items@) =~= before.push(
            BatchItemView { id: id@, status: "error"@, error: Some(error@) },
        ));
    }
}

/// The items that JSON given to `create` holds: those of a list, or the one value.
pub open spec fn items_of(value: JsonView) -> Seq<JsonView> {
    match value {
        JsonView::Array(a) => a,
        v => seq![v],
    }
}

/// The items that JSON given to `create` holds.
pub fn batch_items(value: Json) -> (r: Vec<Json>)
    ensures
        crate::tree::item_views(r@) == items_of(value@),
{
    match value {
        Json::Array(items) => {
            proof {
                lemma_array_view(items);
            }
            items
        },
        one => {
            let mut out: Vec<Json> = Vec::new();
            let ghost v = one@;
            out.push(one);
            assert(crate::tree::item_views(out@) =~= seq![v]);
            out
        },
    }
}

/// The id of an item: the text under `id`.
pub fn item_id(item: &Json) -> (r: Option<String>)
    ensures
        opt_text(r) == text_at(item@, "id"@),
{
    get_text(item, "id")
}

/// What is to become of an item of a batch.
#[derive(Debug)]
pub enum Creation {
    /// The item is refused, for the reason given.
    Refused { id: String, error: String },
    /// A record with the id is there already, and is left as it is.
    Skipped { id: String },
    /// The record is to be written.
    Wanted { id: String },
}

pub enum CreationView {
    Refused { id: Seq<char>, error: Seq<char> },
    Skipped { id: Seq<char> },
    Wanted { id: Seq<char> },
}

impl View for Creation {
    type V = CreationView;

    open spec fn view(&self) -> CreationView {
        match *self {
            Creation::Refused { id, error } => CreationView::Refused { id: id@, error: error@ },
            Creation::Skipped { id } => CreationView::Skipped { id: id@ },
            Creation::Wanted { id } => CreationView::Wanted { id: id@ },
        }
    }
}

/// What is to become of an item, given what was found out about it: an item without an id
/// is refused under the id `unknown`; then an id that is not valid, then an item that cannot
/// be read; a record that is there already is left as it is where that is asked for, and
/// refused else.
pub open spec fn creation_of(
    id: Option<Seq<char>>,
    id_problem: Option<Seq<char>>,
    parse_problem: Option<Seq<char>>,
    exists: bool,
    skip_existing: bool,
    entity_type: Seq<char>,
) -> CreationView {
    match id {
        None => CreationView::Refused { id: "unknown"@, error: "Missing required field: id"@ },
        Some(id) => match id_problem {
            Some(e) => CreationView::Refused { id, error: e },
            None => match parse_problem {
                Some(e) => CreationView::Refused { id, error: "Parse error: "@ + e },
                None => if !exists {
                    CreationView::Wanted { id }
                } else if skip_existing {
                    CreationView::Skipped { id }
                } else {
                    CreationView::Refused {
                        id,
                        error: entity_type + " '"@ + id + "' already exists"@,
                    }
                },
            },
        },
    }
}

/// Decides what is to become of an item of a batch.
pub fn plan_creation(
    id: Option<String>,
    id_problem: Option<String>,
    parse_problem: Option<String>,
    exists: bool,
    skip_existing: bool,
    entity_type: &str,
) -> (r: Creation)
    ensures
        r@ == creation_of(
            opt_text(id),
            opt_text(id_problem),
            opt_text(parse_problem),
            exists,
            skip_existing,
            entity_type@,
        ),
{
    let id = match id {
        Some(id) => id,
        None => {
            return Creation::Refused {
                id: String::from_str("unknown"),
                error: String::from_str("Missing required field: id"),
            };
        },
    };
    match id_problem {
        Some(error) => {
            return Creation::Refused { id, error };
        },
        None => {},
    }
    match parse_problem {
        Some(e) => {
            return Creation::Refused { id, error: concat("Parse error: ", e.as_str()) };
        },
        None => {},
    }
    if !exists {
        Creation::Wanted { id }
    } else if skip_existing {
        Creation::Skipped { id }
    } else {
        let error = concat3(entity_type, " '", id.as_str());
        let error = concat(error.as_str(), "' already exists");
        Creation::Refused { id, error }
    }
}

/// The tally `after` is `before` with one more item of the given status.
pub open spec fn adds(
    before: BatchResult,
    after: BatchResult,
    id: Seq<char>,
    status: Seq<char>,
    error: Option<Seq<char>>,
) -> bool {
    &&& after.created == before.created + if status == "created"@ {
        1int
    } else {
        0int
    }
    &&& after.skipped == before.skipped + if status == "skipped"@ {
        1int
    } else {
        0int
    }
    &&& after.errors == before.errors + if status == "error"@ {
        1int
    } else {
        0int
    }
    &&& item_views(after.items@) == item_views(before.items@).push(
        BatchItemView { id, status, error },
    )
}

/// Counts an item of a batch: one that was to be written counts as created where writing
/// went well, and as an error with the reason where it did not.
pub fn record_creation(summary: &mut BatchResult, creation: Creation, save_problem: Option<String>)
    requires
        old(summary).created < u32::MAX,
        old(summary).skipped < u32::MAX,
        old(summary).errors < u32::MAX,
    ensures
        match creation@ {
            CreationView::Refused { id, error } => adds(
                *old(summary),
                *final(summary),
                id,
                "error"@,
                Some(error),
            ),
            CreationView::Skipped { id } => adds(
                *old(summary),
                *final(summary),
                id,
                "skipped"@,
                None,
            ),
            CreationView::Wanted { id } => match save_problem {
                Some(e) => adds(*old(summary), *final(summary), id, "error"@, Some(e@)),
                None => adds(*old(summary), *final(summary), id, "created"@, None),
            },
        },
{
    proof {
        reveal_strlit("created");
        reveal_strlit("skipped");
        reveal_strlit("error");
        assert("created"@ != "skipped"@) by {
            assert("created"@[0] != "skipped"@[0]);
        }
        assert("created"@ != "error"@) by {
            assert("created"@[0] != "error"@[0]);
        }
        assert("skipped"@ != "error"@) by {
            assert("skipped"@[0] != "error"@[0]);
        }
    }
    match creation {
        Creation::Refused { id, error } => summary.record_error(id, error),
        Creation::Skipped { id } => summary.record_skipped(id),
        Creation::Wanted { id } => match save_problem {
            Some(e) => summary.record_error(id, e),
            None => summary.record_created(id),
        },
    }
}

/// The record that a patch is meant for, and the patch itself.
#[derive(Debug)]
pub struct PatchTarget {
    pub id: String,
    pub patch: Json,
}

pub struct PatchTargetView {
    pub id: Seq<char>,
    pub patch: JsonView,
}

/// The JSON without the member `id`, where it is an object.
pub open spec fn without_id(parsed: JsonView) -> JsonView {
    match parsed {
        JsonView::Object(m) => JsonView::Object(without_member(m, "id"@)),
        v => v,
    }
}

/// The record that JSON is meant for: the one that the argument names, else the one that
/// the JSON names under `id`; one of the two must be there. The patch is the JSON without
/// its `id`.
pub open spec fn target_of(id: Option<Seq<char>>, parsed: JsonView, entity_type: Seq<char>) -> Result<
    PatchTargetView,
    ErrorView,
> {
    let named = if id is Some {
        id
    } else {
        text_at(parsed, "id"@)
    };
    match named {
        Some(id) => Ok(PatchTargetView { id, patch: without_id(parsed) }),
        None => Err(
            unusable("id"@, "Provide "@ + entity_type + " ID as argument or in JSON body"@),
        ),
    }
}

/// Finds the record that JSON is meant for, and takes the `id` out of the JSON.
pub fn patch_target(id: Option<&str>, parsed: Json, entity_type: &str) -> (r: Result<
    PatchTarget,
    Error,
>)
    ensures
        match target_of(opt_str(id), parsed@, entity_type@) {
            Ok(t) => r is Ok && r->Ok_0.id@ == t.id && r->Ok_0.patch@ == t.patch,
            Err(e) => r is Err && r->Err_0@ == e,
        },
{
    let named = match id {
        Some(id) => Some(String::from_str(id)),
        None => get_text(&parsed, "id"),
    };
    let id = match named {
        Some(id) => id,
        None => {
            return Err(
                Error::InvalidArgument {
                    field: String::from_str("id"),
                    message: concat3("Provide ", entity_type, " ID as argument or in JSON body"),
                    given: None,
                    tried: None,
                },
            );
        },
    };
    let patch = match parsed {
        Json::Object(members) => {
            let mut members = members;
            proof {
                lemma_object_view(members);
            }
            take_member(&mut members, "id");
            proof {
                lemma_object_view(members);
            }
            Json::Object(members)
        },
        other => other,
    };
    Ok(PatchTarget { id, patch })
}

/// Merges a patch into the record with the id, and says which fields it names.
pub fn merge_from_json(id: String, existing: &mut Json, patch: Json) -> (r: Result<
    MergeResult,
    Error,
>)
    ensures
        match patch@ {
            JsonView::Object(p) => if p.len() == 0 {
                r is Err && r->Err_0@ == unusable("merge"@, "Merge patch cannot be empty"@)
                    && final(existing)@ == old(existing)@
            } else {
                r is Ok && r->Ok_0.id == id && texts(r->Ok_0.updated_fields@)
                    == crate::tree::keys_of(p) && final(existing)@ == merged(
                    old(existing)@,
                    patch@,
                )
            },
            _ => r is Err && r->Err_0@ == unusable("merge"@, "Merge patch must be a JSON object"@)
                && final(existing)@ == old(existing)@,
        },
{
    match merge_config(existing, patch) {
        Ok(fields) => Ok(MergeResult { id, updated_fields: fields.updated_fields }),
        Err(e) => Err(e),
    }
}

/// Takes the items that `given` names from the lists of the record with the id, and says
/// which lists lost one.
pub fn remove_from_json(id: String, existing: &mut Json, given: Json) -> (r: Result<
    RemoveResult,
    Error,
>)
    ensures
        match given@ {
            JsonView::Object(s) => if s.len() == 0 {
                r is Err && r->Err_0@ == unusable("remove"@, "Remove spec cannot be empty"@)
                    && final(existing)@ == old(existing)@
            } else {
                r is Ok && r->Ok_0.id == id && texts(r->Ok_0.removed_from@) == removed_from(
                    old(existing)@,
                    given@,
                    Seq::empty(),
                ) && final(existing)@ == without_items(old(existing)@, given@)
            },
            _ => r is Err && r->Err_0@ == unusable("remove"@, "Remove spec must be a JSON object"@)
                && final(existing)@ == old(existing)@,
        },
{
    match remove_config(existing, given) {
        Ok(fields) => Ok(RemoveResult { id, removed_from: fields.removed_from }),
        Err(e) => Err(e),
    }
}

/// The error for a record that cannot get an id because another has it.
pub open spec fn taken(id: Seq<char>, new_id: Seq<char>, entity_type: Seq<char>) -> ErrorView {
    ErrorView::InvalidArgument {
        field: entity_type + ".id"@,
        message: "Cannot rename "@ + entity_type + " '"@ + id + "' to '"@ + new_id
            + "': destination already exists"@,
        given: Some(new_id),
        tried: None,
    }
}

/// The id that a record is to get: the new id in lowercase; none where that is the id it
/// has. An id that another record has is refused.
pub open spec fn renamed(
    id: Seq<char>,
    new_id: Seq<char>,
    new_exists: bool,
    entity_type: Seq<char>,
) -> Result<Option<Seq<char>>, ErrorView> {
    let lower = lowercase_of(new_id);
    if lower == id {
        Ok(None)
    } else if new_exists {
        Err(taken(id, lower, entity_type))
    } else {
        Ok(Some(lower))
    }
}

/// Decides the id that a record is to get. `new_exists` says whether a record with the new
/// id in lowercase is there.
pub fn rename(id: &str, new_id: &str, new_exists: bool, entity_type: &str) -> (r: Result<
    Option<String>,
    Error,
>)
    ensures
        match renamed(id@, new_id@, new_exists, entity_type@) {
            Ok(to) => r is Ok && opt_text(r->Ok_0) == to,
            Err(e) => r is Err && r->Err_0@ == e,
        },
{
    let lower = lowercase(new_id);
    if same_text(lower.as_str(), id) {
        return Ok(None);
    }
    if new_exists {
        let mut message = concat3("Cannot rename ", entity_type, " '");
        message.append(id);
        message.append("' to '");
        message.append(lower.as_str());
        message.append("': destination already exists");
        return Err(
            Error::InvalidArgument {
                field: concat(entity_type, ".id"),
                message,
                given: Some(lower),
                tried: None,
            },
        );
    }
    Ok(Some(lower))
}

/// An entry of a directory.
#[derive(Debug)]
pub struct DirEntry {
    pub name: String,
    pub is_dir: bool,
}

/// The entry is the file of a record: a file whose name is an id and `.json`.
pub open spec fn is_record(e: DirEntry) -> bool {
    !e.is_dir && has_suffix(e.name@, ".json"@) && e.name@.len() > 5
}

/// The id of the record that a file holds: its name without `.json`.
pub open spec fn record_id(name: Seq<char>) -> Seq<char> {
    name.take(name.len() - 5)
}

/// The ids of the records among the entries, in the order of the entries.
pub open spec fn record_ids(entries: Seq<DirEntry>) -> Seq<Seq<char>>
    decreases entries.len(),
{
    if entries.len() == 0 {
        Seq::empty()
    } else {
        record_ids(entries.drop_last()) + if is_record(entries.last()) {
            seq![record_id(entries.last().name@)]
        } else {
            Seq::empty()
        }
    }
}

/// The ids of the records that a directory holds, in order.
pub fn list_ids(entries: &Vec<DirEntry>) -> (r: Vec<String>)
    ensures
        texts(r@) == sorted_of(record_ids(entries@)),
{
    let mut ids: Vec<String> = Vec::new();
    let mut i: usize = 0;
    proof {
        reveal_strlit(".json");
    }
    assert(entries@.take(0) =~= Seq::<DirEntry>::empty());
    assert(texts(ids@) =~= Seq::<Seq<char>>::empty());
    while i < entries.len()
        invariant
            i <= entries.len(),
            ".json"@.len() == 5,
            texts(ids@) == record_ids(entries@.take(i as int)),
        decreases entries.len() - i,
    {
        proof {
            assert(entries@.take(i + 1).drop_last() =~= entries@.take(i as int));
            assert(entries@.take(i + 1).last() == entries@[i as int]);
        }
        let ghost before = texts(ids@);
        let e = &entries[i];
        let name = chars_of(e.name.as_str());
        if !e.is_dir && name.len() > 5 && ends_with(e.name.as_str(), ".json") {
            let id = string_of(&slice_chars(&name, 0, name.len() - 5));
            assert(id@ =~= record_id(e.name@));
            ids.push(id);
            assert(texts(ids@) =~= before + seq![record_id(e.name@)]);
        } else {
            assert(before + Seq::<Seq<char>>::empty() =~= before);
        }
        i += 1;
    }
    proof {
        assert(entries@.take(entries@.len() as int) =~= entries@);
    }
    sort_texts(&ids)
}

/// The kind of record, other than the one that is saved, that has the id already: a
/// project, else a server, else a component.
pub open spec fn colliding_kind(
    saving: Seq<char>,
    has_project: bool,
    has_server: bool,
    has_component: bool,
) -> Option<Seq<char>> {
    if saving != "project"@ && has_project {
        Some("project"@)
    } else if saving != "server"@ && has_server {
        Some("server"@)
    } else if saving != "component"@ && has_component {
        Some("component"@)
    } else {
        None
    }
}

/// Checks that no record of another kind has the id of the record that is saved.
pub fn check_id_collision(
    id: &str,
    saving_type: &str,
    has_project: bool,
    has_server: bool,
    has_component: bool,
) -> (r: Result<(), Error>)
    ensures
        match colliding_kind(saving_type@, has_project, has_server, has_component) {
            Some(kind) => r is Err && r->Err_0@ == (ErrorView::IdCollision {
                id: id@,
                saving: saving_type@,
                existing: kind,
            }),
            None => r is Ok,
        },
{
    let kind = if !same_text(saving_type, "project") && has_project {
        "project"
    } else if !same_text(saving_type, "server") && has_server {
        "server"
    } else if !same_text(saving_type, "component") && has_component {
        "component"
    } else {
        return Ok(());
    };
    Err(
        Error::IdCollision {
            id: String::from_str(id),
            saving: String::from_str(saving_type),
            existing: String::from_str(kind),
        },
    )
}

pub open spec fn min3(a: int, b: int, c: int) -> int {
    if a <= b && a <= c {
        a
    } else if b <= c {
        b
    } else {
        c
    }
}

/// The least number of characters to insert, delete or replace to turn `a` into `b`.
pub open spec fn edit_distance(a: Seq<char>, b: Seq<char>) -> int
    decreases a.len() + b.len(),
{
    if a.len() == 0 {
        b.len() as int
    } else if b.len() == 0 {
        a.len() as int
    } else {
        min3(
            edit_distance(a.drop_last(), b) + 1,
            edit_distance(a, b.drop_last()) + 1,
            edit_distance(a.drop_last(), b.drop_last()) + if a.last() == b.last() {
                0int
            } else {
                1int
            },
        )
    }
}

pub proof fn lemma_edit_distance_bounds(a: Seq<char>, b: Seq<char>)
    ensures
        0 <= edit_distance(a, b),
        edit_distance(a, b) <= a.len() || edit_distance(a, b) <= b.len(),
    decreases a.len() + b.len(),
{
    if a.len() > 0 && b.len() > 0 {
        lemma_edit_distance_bounds(a.drop_last(), b);
        lemma_edit_distance_bounds(a, b.drop_last());
        lemma_edit_distance_bounds(a.drop_last(), b.drop_last());
    }
}

/// The edit distance between two texts.
pub fn levenshtein(a: &str, b: &str) -> (r: usize)
    ensures
        r == edit_distance(a@, b@),
{
    let x = chars_of(a);
    let y = chars_of(b);
    let a_len = x.len();
    let b_len = y.len();
    if a_len == 0 {
        return b_len;
    }
    if b_len == 0 {
        return a_len;
    }
    let mut prev_row: Vec<usize> = Vec::new();
    let mut curr_row: Vec<usize> = Vec::new();
    let mut j: usize = 0;
    assert(x@.take(0).len() == 0);
    while j <= b_len
        invariant
            b_len == y@.len(),
            j <= b_len + 1,
            prev_row@.len() == j,
            curr_row@.len() == j,
            forall|k: int| 0 <= k < j ==> prev_row@[k] == k,
        decreases b_len + 1 - j,
    {
        prev_row.push(j);
        curr_row.push(0);
        let filled = prev_row.len();
        assert(filled == j + 1);
        j += 1;
    }
    let mut i: usize = 0;
    while i < a_len
        invariant
            x@ == a@,
            y@ == b@,
            a_len == x@.len(),
            b_len == y@.len(),
            b_len < usize::MAX,
            i <= a_len,
            prev_row@.len() == b_len + 1,
            curr_row@.len() == b_len + 1,
            forall|k: int|
                0 <= k <= b_len ==> #[trigger] prev_row@[k] == edit_distance(
                    x@.take(i as int),
                    y@.take(k),
                ),
        decreases a_len - i,
    {
        curr_row[0] = i + 1;
        proof {
            assert(y@.take(0).len() == 0);
        }
        let mut j: usize = 0;
        while j < b_len
            invariant
                a_len == x@.len(),
                b_len == y@.len(),
                b_len < usize::MAX,
                i < a_len,
                j <= b_len,
                prev_row@.len() == b_len + 1,
                curr_row@.len() == b_len + 1,
                forall|k: int|
                    0 <= k <= b_len ==> #[trigger] prev_row@[k] == edit_distance(
                        x@.take(i as int),
                        y@.take(k),
                    ),
                forall|k: int|
                    0 <= k <= j ==> #[trigger] curr_row@[k] == edit_distance(
                        x@.take(i + 1),
                        y@.take(k),
                    ),
            decreases b_len - j,
        {
            proof {
                let p = x@.take(i + 1);
                let q = y@.take(j + 1);
                assert(p.drop_last() =~= x@.take(i as int));
                assert(q.drop_last() =~= y@.take(j as int));
                assert(p.last() == x@[i as int]);
                assert(q.last() == y@[j as int]);
                lemma_edit_distance_bounds(x@.take(i as int), q);
                lemma_edit_distance_bounds(p, y@.take(j as int));
                lemma_edit_distance_bounds(x@.take(i as int), y@.take(j as int));
                assert(prev_row@[j + 1] == edit_distance(x@.take(i as int), q));
                assert(curr_row@[j as int] == edit_distance(p, y@.take(j as int)));
                assert(prev_row@[j as int] == edit_distance(x@.take(i as int), y@.take(j as int)));
            }
            let cost: usize = if x[i] == y[j] {
                0
            } else {
                1
            };
            let up = prev_row[j + 1] + 1;
            let left = match curr_row[j].checked_add(1) {
                Some(v) => v,
                None => usize::MAX,
            };
            let diagonal = prev_row[j] + cost;
            let mut best = up;
            if left < best {
                best = left;
            }
            if diagonal < best {
                best = diagonal;
            }
            curr_row[j + 1] = best;
            j += 1;
        }
        core::mem::swap(&mut prev_row, &mut curr_row);
        i += 1;
    }
    proof {
        assert(x@.take(a_len as int) =~= x@);
        assert(y@.take(b_len as int) =~= y@);
    }
    prev_row[b_len]
}

/// The ids whose lowercase form is at the given distance from the lowercase form of
/// `target`, in order.
pub open spec fn at_distance(target: Seq<char>, ids: Seq<Seq<char>>, d: int) -> Seq<Seq<char>>
    decreases ids.len(),
{
    if ids.len() == 0 {
        Seq::empty()
    } else {
        at_distance(target, ids.drop_last(), d) + if edit_distance(
            lowercase_of(target),
            lowercase_of(ids.last()),
        ) == d {
            seq![ids.last()]
        } else {
            Seq::empty()
        }
    }
}

/// All but what lies beyond the first three.
pub open spec fn first_three(s: Seq<Seq<char>>) -> Seq<Seq<char>> {
    if s.len() <= 3 {
        s
    } else {
        s.take(3)
    }
}

/// Up to three ids that resemble `target`: those at distance 1 from it, then those at
/// distance 2, then those at distance 3, each group in the order of `ids`.
pub open spec fn similar_ids(target: Seq<char>, ids: Seq<Seq<char>>) -> Seq<Seq<char>> {
    first_three(
        at_distance(target, ids, 1) + at_distance(target, ids, 2) + at_distance(target, ids, 3),
    )
}

/// The ids at the given distance, appended to `out` while it holds fewer than three.
fn collect_at_distance(
    target_lower: &str,
    ids: &Vec<String>,
    distances: &Vec<usize>,
    d: usize,
    out: &mut Vec<String>,
    Ghost(target): Ghost<Seq<char>>,
    Ghost(head): Ghost<Seq<Seq<char>>>,
)
    requires
        target_lower@ == lowercase_of(target),
        distances@.len() == ids@.len(),
        forall|i: int|
            0 <= i < ids@.len() ==> #[trigger] distances@[i] == edit_distance(
                lowercase_of(target),
                lowercase_of(ids@[i]@),
            ),
        texts(old(out)@) == first_three(head),
    ensures
        texts(final(out)@) == first_three(head + at_distance(target, texts(ids@), d as int)),
{
    let ghost all = texts(ids@);
    let mut i: usize = 0;
    assert(all.take(0) =~= Seq::<Seq<char>>::empty());
    assert(head + at_distance(target, all.take(0), d as int) =~= head);
    while i < ids.len()
        invariant
            i <= ids.len(),
            all == texts(ids@),
            distances@.len() == ids@.len(),
            forall|k: int|
                0 <= k < ids@.len() ==> #[trigger] distances@[k] == edit_distance(
                    lowercase_of(target),
                    lowercase_of(ids@[k]@),
                ),
            texts(out@) == first_three(head + at_distance(target, all.take(i as int), d as int)),
        decreases ids.len() - i,
    {
        let ghost before = head + at_distance(target, all.take(i as int), d as int);
        proof {
            assert(all.take(i + 1).drop_last() =~= all.take(i as int));
            assert(all.take(i + 1).last() == ids@[i as int]@);
        }
        if distances[i] == d {
            proof {
                assert(head + at_distance(target, all.take(i + 1), d as int) =~= before.push(
                    ids@[i as int]@,
                ));
            }
            if out.len() < 3 {
                let ghost shown = texts(out@);
                out.push(ids[i].clone());
                assert(texts(out@) =~= shown.push(ids@[i as int]@));
                assert(texts(out@) =~= first_three(before.push(ids@[i as int]@)));
            } else {
                assert(texts(out@) =~= first_three(before.push(ids@[i as int]@)));
            }
        } else {
            proof {
                assert(head + at_distance(target, all.take(i + 1), d as int) =~= before);
            }
        }
        i += 1;
    }
    proof {
        assert(all.take(ids@.len() as int) =~= all);
    }
}

/// Up to three of the ids that resemble `target`, the nearest first.
pub fn find_similar_ids(target: &str, ids: &Vec<String>) -> (r: Vec<String>)
    ensures
        texts(r@) == similar_ids(target@, texts(ids@)),
{
    let target_lower = lowercase(target);
    let mut distances: Vec<usize> = Vec::new();
    let mut i: usize = 0;
    while i < ids.len()
        invariant
            i <= ids.len(),
            target_lower@ == lowercase_of(target@),
            distances@.len() == i,
            forall|k: int|
                0 <= k < i ==> #[trigger] distances@[k] == edit_distance(
                    lowercase_of(target@),
                    lowercase_of(ids@[k]@),
                ),
        decreases ids.len() - i,
    {
        let lower = lowercase(ids[i].as_str());
        distances.push(levenshtein(target_lower.as_str(), lower.as_str()));
        i += 1;
    }
    let mut out: Vec<String> = Vec::new();
    let ghost none = Seq::<Seq<char>>::empty();
    let ghost all = texts(ids@);
    assert(texts(out@) =~= first_three(none));
    collect_at_distance(target_lower.as_str(), ids, &distances, 1, &mut out, Ghost(target@), Ghost(none));
    assert(none + at_distance(target@, all, 1) =~= at_distance(target@, all, 1));
    collect_at_distance(
        target_lower.as_str(),
        ids,
        &distances,
        2,
        &mut out,
        Ghost(target@),
        Ghost(at_distance(target@, all, 1)),
    );
    collect_at_distance(
        target_lower.as_str(),
        ids,
        &distances,
        3,
        &mut out,
        Ghost(target@),
        Ghost(at_distance(target@, all, 1) + at_distance(target@, all, 2)),
    );
    out
}

} // verus!
