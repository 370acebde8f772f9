//! JSON values as trees, and the changes that the configuration commands make to them:
//! setting a value at a pointer, merging a patch, and removing items from lists.

use vstd::prelude::*;
use vstd::string::*;
use crate::error::{Error, ErrorView};
use crate::json::{
    index_of_token, normal_pointer, normalize_pointer, parent_and_token, parse_index,
    split_parent_pointer, unescape_token, unescaped,
};
use crate::numbers::{decimal, format_usize};
use crate::search::{lemma_position, lemma_position_is, position};
use crate::split::{parts_of, split_char};
use crate::text::{comes_before, concat3, insert_point, opt_text, same_text, texts};

verus! {

/// A JSON value. A number is held as it is written. An object holds its members in a list;
/// where a key stands twice, the first member is the one that is found.
#[derive(Debug)]
pub enum Json {
    Null,
    Bool(bool),
    Number(String),
    Text(String),
    Array(Vec<Json>),
    Object(Vec<Member>),
}

/// A member of a JSON object.
#[derive(Debug)]
pub struct Member {
    pub key: String,
    pub value: Json,
}

/// A JSON value with its strings as texts.
pub enum JsonView {
    Null,
    Bool(bool),
    Number(Seq<char>),
    Text(Seq<char>),
    Array(Seq<JsonView>),
    Object(Seq<MemberView>),
}

/// A member of a JSON object with its strings as texts.
pub struct MemberView {
    pub key: Seq<char>,
    pub value: JsonView,
}

impl View for Json {
    type V = JsonView;

    open spec fn view(&self) -> JsonView
        decreases self,
    {
        match self {
            Json::Null => JsonView::Null,
            Json::Bool(b) => JsonView::Bool(*b),
            Json::Number(n) => JsonView::Number(n@),
            Json::Text(s) => JsonView::Text(s@),
            Json::Array(items) => JsonView::Array(
                Seq::new(
                    items@.len(),
                    |i: int|
                        if 0 <= i < items@.len() {
                            items@[i]@
                        } else {
                            JsonView::Null
                        },
                ),
            ),
            Json::Object(members) => JsonView::Object(
                Seq::new(
                    members@.len(),
                    |i: int|
                        if 0 <= i < members@.len() {
                            MemberView { key: members@[i].key@, value: members@[i].value@ }
                        } else {
                            MemberView { key: Seq::empty(), value: JsonView::Null }
                        },
                ),
            ),
        }
    }
}

/// The values of a list with their strings as texts.
pub open spec fn item_views(items: Seq<Json>) -> Seq<JsonView> {
    Seq::new(items.len(), |i: int| items[i]@)
}

/// The members of a list with their strings as texts.
pub open spec fn member_views(members: Seq<Member>) -> Seq<MemberView> {
    Seq::new(members.len(), |i: int| MemberView { key: members[i].key@, value: members[i].value@ })
}

/// An array is seen as the list of what its items are seen as.
pub proof fn lemma_array_view(items: Vec<Json>)
    ensures
        Json::Array(items)@ == JsonView::Array(item_views(items@)),
{
    assert(Json::Array(items)@->Array_0 =~= item_views(items@));
}

/// An object is seen as the list of what its members are seen as.
pub proof fn lemma_object_view(members: Vec<Member>)
    ensures
        Json::Object(members)@ == JsonView::Object(member_views(members@)),
{
    assert(Json::Object(members)@->Object_0 =~= member_views(members@));
}

/// The keys of the members, in order.
pub open spec fn keys_of(members: Seq<MemberView>) -> Seq<Seq<char>> {
    Seq::new(members.len(), |i: int| members[i].key)
}

/// The value of the first member with the key, where there is one.
pub open spec fn member(members: Seq<MemberView>, key: Seq<char>) -> Option<JsonView> {
    let p = position(keys_of(members), key);
    if p >= 0 {
        Some(members[p].value)
    } else {
        None
    }
}

/// The members with `value` under `key`: in the place of the first member with the key, or,
/// where there is none, before the first member whose key comes after it.
pub open spec fn with_member(members: Seq<MemberView>, key: Seq<char>, value: JsonView) -> Seq<
    MemberView,
> {
    let p = position(keys_of(members), key);
    if p >= 0 {
        members.update(p, MemberView { key, value })
    } else {
        members.insert(insert_point(keys_of(members), key), MemberView { key, value })
    }
}

/// The members without the first member with the key.
pub open spec fn without_member(members: Seq<MemberView>, key: Seq<char>) -> Seq<MemberView> {
    let p = position(keys_of(members), key);
    if p >= 0 {
        members.remove(p)
    } else {
        members
    }
}

/// The place of the first member with the key.
pub fn find_member(members: &Vec<Member>, key: &str) -> (r: Option<usize>)
    ensures
        match r {
            Some(p) => p < members@.len() && position(keys_of(member_views(members@)), key@) == p,
            None => position(keys_of(member_views(members@)), key@) == -1,
        },
{
    let ghost keys = keys_of(member_views(members@));
    let mut i: usize = 0;
    while i < members.len()
        invariant
            i <= members.len(),
            keys == keys_of(member_views(members@)),
            forall|j: int| 0 <= j < i ==> keys[j] != key@,
        decreases members.len() - i,
    {
        if same_text(members[i].key.as_str(), key) {
            proof {
                assert(keys[i as int] == key@);
                lemma_position_is(keys, key@, i as int);
            }
            return Some(i);
        }
        i += 1;
    }
    proof {
        lemma_position_is(keys, key@, -1);
    }
    None
}

/// The place at which a member with the key goes into the list.
fn place_for(members: &Vec<Member>, key: &str) -> (r: usize)
    ensures
        r == insert_point(keys_of(member_views(members@)), key@),
        r <= members@.len(),
{
    let ghost keys = keys_of(member_views(members@));
    let mut i: usize = 0;
    assert(keys.skip(0) =~= keys);
    while i < members.len() && !comes_before(key, members[i].key.as_str())
        invariant
            i <= members.len(),
            keys == keys_of(member_views(members@)),
            insert_point(keys, key@) == i + insert_point(keys.skip(i as int), key@),
        decreases members.len() - i,
    {
        proof {
            assert(keys.skip(i as int).drop_first() =~= keys.skip(i + 1));
            assert(keys.skip(i as int)[0] == keys[i as int]);
        }
        i += 1;
    }
    proof {
        if i < members.len() {
            assert(keys.skip(i as int)[0] == keys[i as int]);
        }
    }
    i
}

/// The value under the key, where the object has it.
pub fn get_member<'a>(members: &'a Vec<Member>, key: &str) -> (r: Option<&'a Json>)
    ensures
        match r {
            Some(v) => member(member_views(members@), key@) == Some(v@),
            None => member(member_views(members@), key@) is None,
        },
{
    match find_member(members, key) {
        Some(p) => Some(&members[p].value),
        None => None,
    }
}

/// Puts a value under a key.
pub fn put_member(members: &mut Vec<Member>, key: String, value: Json)
    ensures
        member_views(final(members)@) == with_member(member_views(old(members)@), key@, value@),
{
    let ghost before = member_views(members@);
    match find_member(members, key.as_str()) {
        Some(p) => {
            members.remove(p);
            members.insert(p, Member { key, value });
            assert(member_views(members@) =~= before.update(
                p as int,
                MemberView { key: key@, value: value@ },
            ));
        },
        None => {
            let at = place_for(members, key.as_str());
            members.insert(at, Member { key, value });
            assert(member_views(members@) =~= before.insert(
                at as int,
                MemberView { key: key@, value: value@ },
            ));
        },
    }
}

/// Takes the first member with the key out, and hands its value back.
pub fn take_member(members: &mut Vec<Member>, key: &str) -> (r: Option<Json>)
    ensures
        member_views(final(members)@) == without_member(member_views(old(members)@), key@),
        match r {
            Some(v) => member(member_views(old(members)@), key@) == Some(v@),
            None => member(member_views(old(members)@), key@) is None,
        },
{
    let ghost before = member_views(members@);
    match find_member(members, key) {
        Some(p) => {
            let m = members.remove(p);
            assert(member_views(members@) =~= before.remove(p as int));
            Some(m.value)
        },
        None => None,
    }
}

/// Whether two values are the same.
pub fn same_json(a: &Json, b: &Json) -> (r: bool)
    ensures
        r == (a@ == b@),
    decreases a,
{
    match (a, b) {
        (Json::Null, Json::Null) => true,
        (Json::Bool(x), Json::Bool(y)) => *x == *y,
        (Json::Number(x), Json::Number(y)) => same_text(x.as_str(), y.as_str()),
        (Json::Text(x), Json::Text(y)) => same_text(x.as_str(), y.as_str()),
        (Json::Array(x), Json::Array(y)) => {
            if x.len() != y.len() {
                assert(a@->Array_0.len() != b@->Array_0.len());
                return false;
            }
            let mut i: usize = 0;
            while i < x.len()
                invariant
                    i <= x.len(),
                    x.len() == y.len(),
                    *a == Json::Array(*x),
                    *b == Json::Array(*y),
                    forall|j: int| 0 <= j < i ==> x@[j]@ == y@[j]@,
                decreases x.len() - i,
            {
                if !same_json(&x[i], &y[i]) {
                    assert(a@->Array_0[i as int] == x@[i as int]@);
                    assert(b@->Array_0[i as int] == y@[i as int]@);
                    return false;
                }
                i += 1;
            }
            assert(a@->Array_0 =~= b@->Array_0);
            true
        },
        (Json::Object(x), Json::Object(y)) => {
            if x.len() != y.len() {
                assert(a@->Object_0.len() != b@->Object_0.len());
                return false;
            }
            let mut i: usize = 0;
            while i < x.len()
                invariant
                    i <= x.len(),
                    x.len() == y.len(),
                    *a == Json::Object(*x),
                    *b == Json::Object(*y),
                    forall|j: int|
                        0 <= j < i ==> x@[j].key@ == y@[j].key@ && x@[j].value@ == y@[j].value@,
                decreases x.len() - i,
            {
                if !same_text(x[i].key.as_str(), y[i].key.as_str()) || !same_json(
                    &x[i].value,
                    &y[i].value,
                ) {
                    assert(a@->Object_0[i as int].key == x@[i as int].key@);
                    assert(a@->Object_0[i as int].value == x@[i as int].value@);
                    assert(b@->Object_0[i as int].key == y@[i as int].key@);
                    assert(b@->Object_0[i as int].value == y@[i as int].value@);
                    return false;
                }
                i += 1;
            }
            assert(a@->Object_0 =~= b@->Object_0);
            true
        },
        _ => false,
    }
}

/// The value under a key of an object; none where the value is no object or lacks the key.
pub open spec fn value_at(v: JsonView, key: Seq<char>) -> Option<JsonView> {
    match v {
        JsonView::Object(m) => member(m, key),
        _ => None,
    }
}

/// The text under a key of an object; none where the value is no object, lacks the key, or
/// holds something else than a text under it.
pub open spec fn text_at(v: JsonView, key: Seq<char>) -> Option<Seq<char>> {
    match value_at(v, key) {
        Some(JsonView::Text(s)) => Some(s),
        _ => None,
    }
}

/// The value under a key of an object.
pub fn get_value<'a>(value: &'a Json, key: &str) -> (r: Option<&'a Json>)
    ensures
        match r {
            Some(v) => value_at(value@, key@) == Some(v@),
            None => value_at(value@, key@) is None,
        },
{
    match value {
        Json::Object(members) => {
            proof {
                lemma_object_view(*members);
            }
            get_member(members, key)
        },
        _ => None,
    }
}

/// The text under a key of an object.
pub fn get_text(value: &Json, key: &str) -> (r: Option<String>)
    ensures
        opt_text(r) == text_at(value@, key@),
{
    match get_value(value, key) {
        Some(Json::Text(s)) => Some(s.clone()),
        _ => None,
    }
}

/// The value, or null where there is none.
pub open spec fn or_null(v: Option<JsonView>) -> JsonView {
    match v {
        Some(x) => x,
        None => JsonView::Null,
    }
}

/// The list `base` with each item of `patch` that it does not hold yet added at its end, in
/// the order of `patch`.
pub open spec fn union_of(base: Seq<JsonView>, patch: Seq<JsonView>) -> Seq<JsonView>
    decreases patch.len(),
{
    if patch.len() == 0 {
        base
    } else {
        let before = union_of(base, patch.drop_last());
        if before.contains(patch.last()) {
            before
        } else {
            before.push(patch.last())
        }
    }
}

/// A value with a patch merged into it. An object takes the members of the patch one by
/// one: a member that is null removes the key, any other is merged into the value under its
/// key. A list takes the items of the patch that it does not hold yet. In every other case
/// the patch takes the place of the value.
pub open spec fn merged(base: JsonView, patch: JsonView) -> JsonView
    decreases patch, 0nat,
{
    match (base, patch) {
        (JsonView::Object(b), JsonView::Object(p)) => JsonView::Object(
            merged_members(b, p, p.len()),
        ),
        (JsonView::Array(b), JsonView::Array(p)) => JsonView::Array(union_of(b, p)),
        (_, p) => p,
    }
}

/// The members `base` with the first `n` members of `patch` merged into them.
pub open spec fn merged_members(base: Seq<MemberView>, patch: Seq<MemberView>, n: nat) -> Seq<
    MemberView,
>
    decreases patch, n,
{
    if n == 0 || n > patch.len() {
        base
    } else {
        let before = merged_members(base, patch, (n - 1) as nat);
        let m = patch[n - 1];
        if m.value is Null {
            without_member(before, m.key)
        } else {
            with_member(before, m.key, merged(or_null(member(before, m.key)), m.value))
        }
    }
}

/// Whether the list holds the value.
pub fn contains_json(items: &Vec<Json>, x: &Json) -> (r: bool)
    ensures
        r == item_views(items@).contains(x@),
{
    let mut i: usize = 0;
    while i < items.len()
        invariant
            i <= items.len(),
            forall|j: int| 0 <= j < i ==> item_views(items@)[j] != x@,
        decreases items.len() - i,
    {
        if same_json(&items[i], x) {
            assert(item_views(items@)[i as int] == x@);
            return true;
        }
        i += 1;
    }
    false
}

/// Adds the items of `patch` that `base` does not hold yet at its end.
pub fn array_union(base: &mut Vec<Json>, patch: Vec<Json>)
    ensures
        item_views(final(base)@) == union_of(item_views(old(base)@), item_views(patch@)),
{
    let ghost b0 = item_views(base@);
    let ghost pv = item_views(patch@);
    for item in it: patch
        invariant
            it.seq() == patch@,
            pv == item_views(patch@),
            item_views(base@) == union_of(b0, pv.take(it.index() as int)),
    {
        proof {
            let k = it.index() as int;
            assert(pv.take(k + 1).drop_last() =~= pv.take(k));
            assert(pv.take(k + 1).last() == item@);
        }
        let ghost before = item_views(base@);
        if !contains_json(base, &item) {
            base.push(item);
            assert(item_views(base@) =~= before.push(item@));
        }
    }
    assert(pv.take(patch@.len() as int) =~= pv);
}

/// Merges a patch into a value.
pub fn deep_merge(base: Json, patch: Json) -> (r: Json)
    ensures
        r@ == merged(base@, patch@),
    decreases patch,
{
    match (base, patch) {
        (Json::Object(b), Json::Object(p)) => {
            let mut b = b;
            let ghost bv = member_views(b@);
            let ghost pv = member_views(p@);
            let ghost pg = p;
            proof {
                lemma_object_view(b);
                lemma_object_view(p);
            }
            for m in it: p
                invariant
                    it.seq() == pg@,
                    patch == Json::Object(pg),
                    pv == member_views(pg@),
                    member_views(b@) == merged_members(bv, pv, it.index() as nat),
            {
                let ghost k = it.index() as int;
                let ghost before = member_views(b@);
                assert(pv[k] == MemberView { key: m.key@, value: m.value@ });
                match m.value {
                    Json::Null => {
                        take_member(&mut b, m.key.as_str());
                    },
                    value => {
                        assert(!(value@ is Null));
                        assert(decreases_to!(patch => value)) by {
                            assert(decreases_to!(patch => patch->Object_0));
                            assert(decreases_to!(pg => pg[k]));
                            assert(decreases_to!(pg[k] => pg[k].value));
                        }
                        match find_member(&b, m.key.as_str()) {
                            Some(at) => {
                                let old_member = b.remove(at);
                                let new_value = deep_merge(old_member.value, value);
                                b.insert(at, Member { key: m.key, value: new_value });
                                assert(member_views(b@) =~= before.update(
                                    at as int,
                                    MemberView { key: m.key@, value: new_value@ },
                                ));
                            },
                            None => {
                                let new_value = deep_merge(Json::Null, value);
                                put_member(&mut b, m.key, new_value);
                            },
                        }
                    },
                }
            }
            proof {
                lemma_object_view(b);
            }
            Json::Object(b)
        },
        (Json::Array(b), Json::Array(p)) => {
            let mut b = b;
            proof {
                lemma_array_view(b);
                lemma_array_view(p);
            }
            array_union(&mut b, p);
            proof {
                lemma_array_view(b);
            }
            Json::Array(b)
        },
        (_, p) => p,
    }
}

/// The name of a field under a path: the key alone at the top, else the path, a dot and the
/// key.
pub open spec fn field_path(path: Seq<char>, key: Seq<char>) -> Seq<char> {
    if path.len() == 0 {
        key
    } else {
        path + "."@ + key
    }
}

/// The items of `base` that `given` does not hold, in order.
pub open spec fn kept_items(base: Seq<JsonView>, given: Seq<JsonView>) -> Seq<JsonView>
    decreases base.len(),
{
    if base.len() == 0 {
        base
    } else {
        let head = kept_items(base.drop_last(), given);
        if given.contains(base.last()) {
            head
        } else {
            head.push(base.last())
        }
    }
}

/// A value without what `given` names. Where both are objects, each member of `given` is
/// taken from the value under its key; where both are lists, the items that `given` holds
/// leave the list. In every other case the value stays as it is.
pub open spec fn without_items(base: JsonView, given: JsonView) -> JsonView
    decreases given, 0nat,
{
    match (base, given) {
        (JsonView::Object(b), JsonView::Object(s)) => JsonView::Object(
            members_without(b, s, s.len()),
        ),
        (JsonView::Array(b), JsonView::Array(s)) => JsonView::Array(kept_items(b, s)),
        _ => base,
    }
}

/// The members `base` after the first `n` members of `given` were taken from them.
pub open spec fn members_without(base: Seq<MemberView>, given: Seq<MemberView>, n: nat) -> Seq<
    MemberView,
>
    decreases given, n,
{
    if n == 0 || n > given.len() {
        base
    } else {
        let before = members_without(base, given, (n - 1) as nat);
        let m = given[n - 1];
        match member(before, m.key) {
            Some(child) => with_member(before, m.key, without_items(child, m.value)),
            None => before,
        }
    }
}

/// The names of the lists that lose an item where `given` is taken from `base`, in the
/// order in which they are met. `path` is the name of `base` itself.
pub open spec fn removed_from(base: JsonView, given: JsonView, path: Seq<char>) -> Seq<Seq<char>>
    decreases given, 0nat,
{
    match (base, given) {
        (JsonView::Object(b), JsonView::Object(s)) => members_removed_from(b, s, s.len(), path),
        (JsonView::Array(b), JsonView::Array(s)) => if kept_items(b, s).len() < b.len() {
            seq![path]
        } else {
            Seq::empty()
        },
        _ => Seq::empty(),
    }
}

/// The names of the lists that lose an item where the first `n` members of `given` are taken
/// from the members `base`.
pub open spec fn members_removed_from(
    base: Seq<MemberView>,
    given: Seq<MemberView>,
    n: nat,
    path: Seq<char>,
) -> Seq<Seq<char>>
    decreases given, n,
{
    if n == 0 || n > given.len() {
        Seq::empty()
    } else {
        let before = members_without(base, given, (n - 1) as nat);
        let m = given[n - 1];
        members_removed_from(base, given, (n - 1) as nat, path) + match member(before, m.key) {
            Some(child) => removed_from(child, m.value, field_path(path, m.key)),
            None => Seq::empty(),
        }
    }
}

/// The name of a field under a path.
fn write_field_path(path: &str, key: &str) -> (r: String)
    ensures
        r@ == field_path(path@, key@),
{
    if path.unicode_len() == 0 {
        String::from_str(key)
    } else {
        concat3(path, ".", key)
    }
}

/// The items of `base` that `given` does not hold.
fn retain_items(base: Vec<Json>, given: &Vec<Json>) -> (r: Vec<Json>)
    ensures
        item_views(r@) == kept_items(item_views(base@), item_views(given@)),
{
    let ghost bv = item_views(base@);
    let mut out: Vec<Json> = Vec::new();
    assert(item_views(out@) =~= kept_items(bv.take(0), item_views(given@)));
    for item in it: base
        invariant
            it.seq() == base@,
            bv == item_views(base@),
            item_views(out@) == kept_items(bv.take(it.index() as int), item_views(given@)),
    {
        proof {
            let k = it.index() as int;
            assert(bv.take(k + 1).drop_last() =~= bv.take(k));
            assert(bv.take(k + 1).last() == item@);
        }
        let ghost before = item_views(out@);
        if !contains_json(given, &item) {
            out.push(item);
            assert(item_views(out@) =~= before.push(item@));
        }
    }
    assert(bv.take(base@.len() as int) =~= bv);
    out
}

/// Takes what `given` names from a value, and notes the names of the lists that lost an
/// item.
pub fn deep_remove(base: Json, given: &Json, removed: &mut Vec<String>, path: &str) -> (r: Json)
    ensures
        r@ == without_items(base@, given@),
        texts(final(removed)@) == texts(old(removed)@) + removed_from(base@, given@, path@),
    decreases given,
{
    let ghost removed0 = texts(removed@);
    match (base, given) {
        (Json::Object(b), Json::Object(s)) => {
            let mut b = b;
            let ghost bv = member_views(b@);
            let ghost sv = member_views(s@);
            proof {
                lemma_object_view(b);
                lemma_object_view(*s);
                assert(removed0 + Seq::<Seq<char>>::empty() =~= removed0);
            }
            let mut i: usize = 0;
            while i < s.len()
                invariant
                    i <= s.len(),
                    *given == Json::Object(*s),
                    sv == member_views(s@),
                    member_views(b@) == members_without(bv, sv, i as nat),
                    texts(removed@) == removed0 + members_removed_from(bv, sv, i as nat, path@),
                decreases s.len() - i,
            {
                let ghost before = member_views(b@);
                let ghost noted = members_removed_from(bv, sv, i as nat, path@);
                assert(sv[i as int] == MemberView { key: s@[i as int].key@, value: s@[i as int].value@ });
                match find_member(&b, s[i].key.as_str()) {
                    Some(at) => {
                        let field = write_field_path(path, s[i].key.as_str());
                        let old_member = b.remove(at);
                        let ghost child = old_member.value@;
                        proof {
                            lemma_position(keys_of(before), s@[i as int].key@);
                            assert(keys_of(before)[at as int] == old_member.key@);
                            assert(decreases_to!(*given => given->Object_0));
                            assert(decreases_to!(*s => s[i as int]));
                            assert(decreases_to!(s[i as int] => s[i as int].value));
                        }
                        let new_value = deep_remove(
                            old_member.value,
                            &s[i].value,
                            removed,
                            field.as_str(),
                        );
                        b.insert(at, Member { key: old_member.key, value: new_value });
                        assert(member_views(b@) =~= before.update(
                            at as int,
                            MemberView { key: s@[i as int].key@, value: new_value@ },
                        ));
                        assert(texts(removed@) =~= removed0 + (noted + removed_from(
                            child,
                            s@[i as int].value@,
                            field@,
                        )));
                    },
                    None => {
                        assert(noted + Seq::<Seq<char>>::empty() =~= noted);
                    },
                }
                i += 1;
            }
            proof {
                lemma_object_view(b);
            }
            Json::Object(b)
        },
        (Json::Array(b), Json::Array(s)) => {
            proof {
                lemma_array_view(b);
                lemma_array_view(*s);
            }
            let before = b.len();
            let kept = retain_items(b, s);
            if kept.len() < before {
                let ghost noted = texts(removed@);
                removed.push(String::from_str(path));
                assert(texts(removed@) =~= noted + seq![path@]);
            } else {
                assert(removed0 + Seq::<Seq<char>>::empty() =~= removed0);
            }
            proof {
                lemma_array_view(kept);
            }
            Json::Array(kept)
        },
        (base, _) => {
            assert(removed0 + Seq::<Seq<char>>::empty() =~= removed0);
            base
        },
    }
}

/// The name of the kind of a value.
pub open spec fn kind_name(v: JsonView) -> Seq<char> {
    match v {
        JsonView::Null => "null"@,
        JsonView::Bool(_) => "bool"@,
        JsonView::Number(_) => "number"@,
        JsonView::Text(_) => "string"@,
        JsonView::Array(_) => "array"@,
        JsonView::Object(_) => "object"@,
    }
}

/// The name of the kind of a value.
pub fn value_type_name(value: &Json) -> (r: &'static str)
    ensures
        r@ == kind_name(value@),
{
    match value {
        Json::Null => "null",
        Json::Bool(_) => "bool",
        Json::Number(_) => "number",
        Json::Text(_) => "string",
        Json::Array(_) => "array",
        Json::Object(_) => "object",
    }
}

/// What an attempt to set a value leaves: the tree as it is afterwards, and why the value
/// was not set, where it was not.
pub struct Placed {
    pub value: JsonView,
    pub refusal: Option<ErrorView>,
}

/// The error of an attempt, with its strings as texts.
pub open spec fn refusal_view(e: Option<Error>) -> Option<ErrorView> {
    match e {
        Some(e) => Some(e@),
        None => None,
    }
}

/// The tokens of a pointer: the parts behind its slashes, with their escapes read.
pub open spec fn pointer_tokens(pointer: Seq<char>) -> Seq<Seq<char>> {
    if pointer.len() == 0 {
        Seq::empty()
    } else {
        let parts = parts_of(pointer, '/').skip(1);
        Seq::new(parts.len(), |i: int| unescaped(parts[i]))
    }
}

/// The tokens of a pointer.
pub fn read_tokens(pointer: &str) -> (r: Vec<String>)
    ensures
        texts(r@) == pointer_tokens(pointer@),
{
    let mut out: Vec<String> = Vec::new();
    if pointer.unicode_len() == 0 {
        assert(texts(out@) =~= Seq::<Seq<char>>::empty());
        return out;
    }
    let parts = split_char(pointer, '/');
    let ghost all = parts_of(pointer@, '/');
    assert(all.len() >= 1);
    let mut i: usize = 1;
    while i < parts.len()
        invariant
            1 <= i <= parts.len(),
            texts(parts@) == all,
            out@.len() == i - 1,
            forall|j: int| 0 <= j < i - 1 ==> (#[trigger] out@[j])@ == unescaped(all[j + 1]),
        decreases parts.len() - i,
    {
        assert(texts(parts@)[i as int] == parts@[i as int]@);
        out.push(unescape_token(parts[i].as_str()));
        i += 1;
    }
    assert(texts(out@) =~= pointer_tokens(pointer@));
    out
}

/// The error for a place in a list that the list does not have.
pub open spec fn no_such_place(i: nat) -> ErrorView {
    ErrorView::InvalidValue {
        key: "arrayIndex"@,
        value: Some(decimal(i)),
        problem: "Array index out of bounds"@,
    }
}

/// What setting `value` under `token` in `parent` leaves. An object gets the member; a list
/// gets the value at the place that the token names, which it must have; nothing else can
/// take a child.
pub open spec fn child_set(parent: JsonView, token: Seq<char>, value: JsonView) -> Placed {
    match parent {
        JsonView::Object(m) => Placed {
            value: JsonView::Object(with_member(m, token, value)),
            refusal: None,
        },
        JsonView::Array(a) => match index_of_token(token) {
            Err(e) => Placed { value: parent, refusal: Some(e) },
            Ok(i) => if i >= a.len() {
                Placed { value: parent, refusal: Some(no_such_place(i)) }
            } else {
                Placed { value: JsonView::Array(a.update(i as int, value)), refusal: None }
            },
        },
        _ => Placed {
            value: parent,
            refusal: Some(
                ErrorView::InvalidValue {
                    key: "jsonPointer"@,
                    value: Some(kind_name(parent)),
                    problem: "Cannot set child on non-container"@,
                },
            ),
        },
    }
}

/// Sets a value under a token in a parent. The parent comes back, changed where that went
/// well, together with the reason where it did not.
pub fn set_child(parent: Json, token: &str, value: Json) -> (r: (Json, Option<Error>))
    ensures
        r.0@ == child_set(parent@, token@, value@).value,
        refusal_view(r.1) == child_set(parent@, token@, value@).refusal,
{
    match parent {
        Json::Object(m) => {
            let mut m = m;
            proof {
                lemma_object_view(m);
            }
            put_member(&mut m, String::from_str(token), value);
            proof {
                lemma_object_view(m);
            }
            (Json::Object(m), None)
        },
        Json::Array(a) => {
            let mut a = a;
            proof {
                lemma_array_view(a);
            }
            let index = match parse_index(token) {
                Ok(i) => i,
                Err(e) => {
                    return (Json::Array(a), Some(e));
                },
            };
            if index >= a.len() {
                return (
                    Json::Array(a),
                    Some(
                        Error::InvalidValue {
                            key: String::from_str("arrayIndex"),
                            value: Some(format_usize(index)),
                            problem: String::from_str("Array index out of bounds"),
                        },
                    ),
                );
            }
            let ghost before = item_views(a@);
            a.remove(index);
            a.insert(index, value);
            proof {
                assert(item_views(a@) =~= before.update(index as int, value@));
                lemma_array_view(a);
            }
            (Json::Array(a), None)
        },
        other => {
            let kind = value_type_name(&other);
            (
                other,
                Some(
                    Error::InvalidValue {
                        key: String::from_str("jsonPointer"),
                        value: Some(String::from_str(kind)),
                        problem: String::from_str("Cannot set child on non-container"),
                    },
                ),
            )
        },
    }
}

/// The value, or an object without members where there is none.
pub open spec fn or_empty_object(v: Option<JsonView>) -> JsonView {
    match v {
        Some(x) => x,
        None => JsonView::Object(Seq::empty()),
    }
}

/// What setting `value` under `last` at the end of the way that `tokens` name leaves. On
/// the way, an object that lacks a member gets an empty object for it, and so does a null,
/// which becomes an object; a list is entered at the place that the token names. `pointer`
/// names the way in errors.
pub open spec fn placed(
    node: JsonView,
    tokens: Seq<Seq<char>>,
    pointer: Seq<char>,
    last: Seq<char>,
    value: JsonView,
) -> Placed
    decreases tokens.len(),
{
    if tokens.len() == 0 {
        child_set(node, last, value)
    } else {
        let rest = tokens.drop_first();
        match node {
            JsonView::Object(m) => {
                let inside = placed(or_empty_object(member(m, tokens[0])), rest, pointer, last, value);
                Placed {
                    value: JsonView::Object(with_member(m, tokens[0], inside.value)),
                    refusal: inside.refusal,
                }
            },
            JsonView::Null => {
                let inside = placed(JsonView::Object(Seq::empty()), rest, pointer, last, value);
                Placed {
                    value: JsonView::Object(with_member(Seq::empty(), tokens[0], inside.value)),
                    refusal: inside.refusal,
                }
            },
            JsonView::Array(a) => match index_of_token(tokens[0]) {
                Err(e) => Placed { value: node, refusal: Some(e) },
                Ok(i) => if i >= a.len() {
                    Placed {
                        value: node,
                        refusal: Some(
                            ErrorView::InvalidValue {
                                key: pointer,
                                value: None,
                                problem: "Array index out of bounds while creating path"@,
                            },
                        ),
                    }
                } else {
                    let inside = placed(a[i as int], rest, pointer, last, value);
                    Placed {
                        value: JsonView::Array(a.update(i as int, inside.value)),
                        refusal: inside.refusal,
                    }
                },
            },
            _ => Placed {
                value: node,
                refusal: Some(
                    ErrorView::InvalidValue {
                        key: pointer,
                        value: Some(kind_name(node)),
                        problem: "Expected object/array at pointer"@,
                    },
                ),
            },
        }
    }
}

/// Goes the way that the tokens from `from` on name, making it where it is not there yet,
/// and sets `value` under `last` at its end.
pub fn set_at(
    node: Json,
    tokens: &Vec<String>,
    from: usize,
    pointer: &str,
    last: &str,
    value: Json,
) -> (r: (Json, Option<Error>))
    requires
        from <= tokens@.len(),
    ensures
        r.0@ == placed(node@, texts(tokens@).skip(from as int), pointer@, last@, value@).value,
        refusal_view(r.1) == placed(
            node@,
            texts(tokens@).skip(from as int),
            pointer@,
            last@,
            value@,
        ).refusal,
    decreases tokens@.len() - from,
{
    if from == tokens.len() {
        return set_child(node, last, value);
    }
    let ghost rest = texts(tokens@).skip(from as int);
    proof {
        assert(rest.drop_first() =~= texts(tokens@).skip(from + 1));
        assert(rest[0] == tokens@[from as int]@);
    }
    let token = tokens[from].as_str();
    match node {
        Json::Object(m) => {
            let mut m = m;
            proof {
                lemma_object_view(m);
            }
            walk_member(m, tokens, from, pointer, last, value)
        },
        Json::Null => {
            let m: Vec<Member> = Vec::new();
            assert(member_views(m@) =~= Seq::<MemberView>::empty());
            walk_member(m, tokens, from, pointer, last, value)
        },
        Json::Array(a) => {
            let mut a = a;
            proof {
                lemma_array_view(a);
            }
            let index = match parse_index(token) {
                Ok(i) => i,
                Err(e) => {
                    return (Json::Array(a), Some(e));
                },
            };
            if index >= a.len() {
                return (
                    Json::Array(a),
                    Some(
                        Error::InvalidValue {
                            key: String::from_str(pointer),
                            value: None,
                            problem: String::from_str(
                                "Array index out of bounds while creating path",
                            ),
                        },
                    ),
                );
            }
            let ghost before = item_views(a@);
            let child = a.remove(index);
            let inside = set_at(child, tokens, from + 1, pointer, last, value);
            a.insert(index, inside.0);
            proof {
                assert(item_views(a@) =~= before.update(index as int, inside.0@));
                lemma_array_view(a);
            }
            (Json::Array(a), inside.1)
        },
        other => {
            let kind = value_type_name(&other);
            (
                other,
                Some(
                    Error::InvalidValue {
                        key: String::from_str(pointer),
                        value: Some(String::from_str(kind)),
                        problem: String::from_str("Expected object/array at pointer"),
                    },
                ),
            )
        },
    }
}

/// Goes on from the members of an object under the token at `from`.
fn walk_member(
    m: Vec<Member>,
    tokens: &Vec<String>,
    from: usize,
    pointer: &str,
    last: &str,
    value: Json,
) -> (r: (Json, Option<Error>))
    requires
        from < tokens@.len(),
    ensures
        r.0@ == placed(
            JsonView::Object(member_views(m@)),
            texts(tokens@).skip(from as int),
            pointer@,
            last@,
            value@,
        ).value,
        refusal_view(r.1) == placed(
            JsonView::Object(member_views(m@)),
            texts(tokens@).skip(from as int),
            pointer@,
            last@,
            value@,
        ).refusal,
    decreases tokens@.len() - from, 0nat,
{
    let mut m = m;
    let next = if from < tokens.len() {
        from + 1
    } else {
        from
    };
    let ghost before = member_views(m@);
    let ghost rest = texts(tokens@).skip(from as int);
    proof {
        assert(rest.drop_first() =~= texts(tokens@).skip(from + 1));
        assert(rest[0] == tokens@[from as int]@);
    }
    let token = tokens[from].as_str();
    match find_member(&m, token) {
        Some(at) => {
            let old_member = m.remove(at);
            proof {
                lemma_position(keys_of(before), token@);
                assert(keys_of(before)[at as int] == old_member.key@);
            }
            let inside = set_at(old_member.value, tokens, next, pointer, last, value);
            m.insert(at, Member { key: old_member.key, value: inside.0 });
            proof {
                assert(member_views(m@) =~= before.update(
                    at as int,
                    MemberView { key: token@, value: inside.0@ },
                ));
                lemma_object_view(m);
            }
            (Json::Object(m), inside.1)
        },
        None => {
            let fresh: Vec<Member> = Vec::new();
            proof {
                lemma_object_view(fresh);
                assert(member_views(fresh@) =~= Seq::<MemberView>::empty());
            }
            let inside = set_at(Json::Object(fresh), tokens, next, pointer, last, value);
            put_member(&mut m, String::from_str(token), inside.0);
            proof {
                lemma_object_view(m);
            }
            (Json::Object(m), inside.1)
        },
    }
}

/// What setting `value` at a pointer in a tree leaves. The empty pointer names the tree
/// itself; any other names a child of the value at the pointer before its last slash.
pub open spec fn pointer_set(root: JsonView, pointer: Seq<char>, value: JsonView) -> Placed {
    match normal_pointer(pointer) {
        Err(e) => Placed { value: root, refusal: Some(e) },
        Ok(p) => match parent_and_token(p) {
            None => Placed { value, refusal: None },
            Some(split) => placed(root, pointer_tokens(split.0), split.0, split.1, value),
        },
    }
}

/// Sets a value at a pointer in a tree. The way to it is made where it is not there yet.
pub fn set_json_pointer(root: &mut Json, pointer: &str, new_value: Json) -> (r: Result<(), Error>)
    ensures
        final(root)@ == pointer_set(old(root)@, pointer@, new_value@).value,
        match pointer_set(old(root)@, pointer@, new_value@).refusal {
            Some(e) => r is Err && r->Err_0@ == e,
            None => r is Ok,
        },
{
    let pointer = match normalize_pointer(pointer) {
        Ok(p) => p,
        Err(e) => {
            return Err(e);
        },
    };
    match split_parent_pointer(pointer.as_str()) {
        None => {
            *root = new_value;
            Ok(())
        },
        Some((parent, token)) => {
            let tokens = read_tokens(parent.as_str());
            let mut taken = Json::Null;
            core::mem::swap(root, &mut taken);
            assert(texts(tokens@).skip(0) =~= texts(tokens@));
            let (after, refusal) = set_at(
                taken,
                &tokens,
                0,
                parent.as_str(),
                token.as_str(),
                new_value,
            );
            *root = after;
            match refusal {
                Some(e) => Err(e),
                None => Ok(()),
            }
        },
    }
}

/// On a way that starts at an object without members nothing is refused.
pub proof fn lemma_fresh_way_is_free(
    tokens: Seq<Seq<char>>,
    pointer: Seq<char>,
    last: Seq<char>,
    value: JsonView,
)
    ensures
        placed(JsonView::Object(Seq::empty()), tokens, pointer, last, value).refusal is None,
    decreases tokens.len(),
{
    if tokens.len() > 0 {
        let none = Seq::<MemberView>::empty();
        lemma_position(keys_of(none), tokens[0]);
        lemma_fresh_way_is_free(tokens.drop_first(), pointer, last, value);
    }
}

/// A value that cannot be set leaves the tree as it was.
pub proof fn lemma_refusal_changes_nothing(
    node: JsonView,
    tokens: Seq<Seq<char>>,
    pointer: Seq<char>,
    last: Seq<char>,
    value: JsonView,
)
    requires
        placed(node, tokens, pointer, last, value).refusal is Some,
    ensures
        placed(node, tokens, pointer, last, value).value == node,
    decreases tokens.len(),
{
    if tokens.len() > 0 {
        let rest = tokens.drop_first();
        match node {
            JsonView::Object(m) => {
                lemma_position(keys_of(m), tokens[0]);
                match member(m, tokens[0]) {
                    Some(child) => {
                        lemma_refusal_changes_nothing(child, rest, pointer, last, value);
                        let at = position(keys_of(m), tokens[0]);
                        assert(m.update(at, MemberView { key: tokens[0], value: child }) =~= m);
                    },
                    None => {
                        lemma_fresh_way_is_free(rest, pointer, last, value);
                    },
                }
            },
            JsonView::Null => {
                lemma_fresh_way_is_free(rest, pointer, last, value);
            },
            JsonView::Array(a) => {
                match index_of_token(tokens[0]) {
                    Ok(i) => {
                        if i < a.len() {
                            lemma_refusal_changes_nothing(a[i as int], rest, pointer, last, value);
                            assert(a.update(i as int, a[i as int]) =~= a);
                        }
                    },
                    Err(_) => {},
                }
            },
            _ => {},
        }
    }
}

/// A value that cannot be set at a pointer leaves the tree as it was.
pub proof fn lemma_refused_pointer_changes_nothing(
    root: JsonView,
    pointer: Seq<char>,
    value: JsonView,
)
    requires
        pointer_set(root, pointer, value).refusal is Some,
    ensures
        pointer_set(root, pointer, value).value == root,
{
    match normal_pointer(pointer) {
        Ok(p) => match parent_and_token(p) {
            Some(split) => {
                lemma_refusal_changes_nothing(
                    root,
                    pointer_tokens(split.0),
                    split.0,
                    split.1,
                    value,
                );
            },
            None => {},
        },
        Err(_) => {},
    }
}

/// The members of a list put into an object one by one: a later member takes the place of
/// an earlier one with its key.
pub open spec fn collected(members: Seq<MemberView>) -> Seq<MemberView>
    decreases members.len(),
{
    if members.len() == 0 {
        members
    } else {
        with_member(collected(members.drop_last()), members.last().key, members.last().value)
    }
}

/// The object with the members of the list.
pub fn object_of(members: Vec<Member>) -> (r: Json)
    ensures
        r@ == JsonView::Object(collected(member_views(members@))),
{
    let ghost all = member_views(members@);
    let mut out: Vec<Member> = Vec::new();
    assert(member_views(out@) =~= collected(all.take(0)));
    for m in it: members
        invariant
            it.seq() == members@,
            all == member_views(members@),
            member_views(out@) == collected(all.take(it.index() as int)),
    {
        proof {
            let k = it.index() as int;
            assert(all.take(k + 1).drop_last() =~= all.take(k));
            assert(all.take(k + 1).last() == MemberView { key: m.key@, value: m.value@ });
        }
        put_member(&mut out, m.key, m.value);
    }
    proof {
        assert(all.take(members@.len() as int) =~= all);
        lemma_object_view(out);
    }
    Json::Object(out)
}

/// The error for input of the command line that cannot be used.
pub open spec fn unusable(field: Seq<char>, message: Seq<char>) -> ErrorView {
    ErrorView::InvalidArgument { field, message, given: None, tried: None }
}

fn refuse(field: &str, message: &str) -> (r: Error)
    ensures
        r@ == unusable(field@, message@),
{
    Error::InvalidArgument {
        field: String::from_str(field),
        message: String::from_str(message),
        given: None,
        tried: None,
    }
}

/// The one object that the JSON given on the command line and its flags make: the flags
/// are merged into the JSON, or stand alone where none is given. Anything but an object is
/// refused.
pub open spec fn merged_sources(json: Option<JsonView>, flags: Seq<MemberView>) -> Result<
    JsonView,
    ErrorView,
> {
    let base = or_empty_object(json);
    let all = if flags.len() > 0 {
        merged(base, JsonView::Object(collected(flags)))
    } else {
        base
    };
    if all is Object {
        Ok(all)
    } else {
        Err(unusable("json"@, "JSON spec must be an object"@))
    }
}

/// What a function that gives a value or an error returned, with its strings as texts.
pub open spec fn json_result(r: Result<Json, Error>) -> Result<JsonView, ErrorView> {
    match r {
        Ok(v) => Ok(v@),
        Err(e) => Err(e@),
    }
}

/// Merges the flags of the command line into the JSON that was given.
pub fn merge_json_sources(json: Option<Json>, flags: Vec<Member>) -> (r: Result<Json, Error>)
    ensures
        json_result(r) == merged_sources(
            match json {
                Some(v) => Some(v@),
                None => None,
            },
            member_views(flags@),
        ),
{
    let base = match json {
        Some(v) => v,
        None => {
            let none: Vec<Member> = Vec::new();
            proof {
                lemma_object_view(none);
                assert(member_views(none@) =~= Seq::<MemberView>::empty());
            }
            Json::Object(none)
        },
    };
    let all = if flags.len() > 0 {
        deep_merge(base, object_of(flags))
    } else {
        base
    };
    match all {
        Json::Object(m) => Ok(Json::Object(m)),
        _ => Err(refuse("json", "JSON spec must be an object")),
    }
}

/// The names of the fields that a merge changed.
#[derive(Debug)]
pub struct MergeFields {
    pub updated_fields: Vec<String>,
}

/// The names of the lists that a removal took items from.
#[derive(Debug)]
pub struct RemoveFields {
    pub removed_from: Vec<String>,
}

/// The keys of the members of a list.
fn keys(members: &Vec<Member>) -> (r: Vec<String>)
    ensures
        texts(r@) == keys_of(member_views(members@)),
{
    let mut out: Vec<String> = Vec::new();
    let mut i: usize = 0;
    while i < members.len()
        invariant
            i <= members.len(),
            out@.len() == i,
            forall|j: int| 0 <= j < i ==> (#[trigger] out@[j])@ == members@[j].key@,
        decreases members.len() - i,
    {
        out.push(members[i].key.clone());
        i += 1;
    }
    assert(texts(out@) =~= keys_of(member_views(members@)));
    out
}

/// Merges a patch into a record. The patch must be an object with a member; its keys are
/// the fields that count as updated. A patch that is refused leaves the record as it is.
pub fn merge_config(existing: &mut Json, patch: Json) -> (r: Result<MergeFields, Error>)
    ensures
        match patch@ {
            JsonView::Object(p) => if p.len() == 0 {
                r is Err && r->Err_0@ == unusable("merge"@, "Merge patch cannot be empty"@)
                    && final(existing)@ == old(existing)@
            } else {
                r is Ok && texts(r->Ok_0.updated_fields@) == keys_of(p) && final(existing)@
                    == merged(old(existing)@, patch@)
            },
            _ => r is Err && r->Err_0@ == unusable("merge"@, "Merge patch must be a JSON object"@)
                && final(existing)@ == old(existing)@,
        },
{
    let updated_fields = match &patch {
        Json::Object(members) => {
            proof {
                lemma_object_view(*members);
            }
            keys(members)
        },
        _ => {
            return Err(refuse("merge", "Merge patch must be a JSON object"));
        },
    };
    assert(texts(updated_fields@).len() == patch@->Object_0.len());
    if updated_fields.len() == 0 {
        return Err(refuse("merge", "Merge patch cannot be empty"));
    }
    let mut base = Json::Null;
    core::mem::swap(existing, &mut base);
    *existing = deep_merge(base, patch);
    Ok(MergeFields { updated_fields })
}

/// Takes from the lists of a record the items that `given` names. `given` must be an
/// object with a member. What comes back names the lists that lost an item.
pub fn remove_config(existing: &mut Json, given: Json) -> (r: Result<RemoveFields, Error>)
    ensures
        match given@ {
            JsonView::Object(s) => if s.len() == 0 {
                r is Err && r->Err_0@ == unusable("remove"@, "Remove spec cannot be empty"@)
                    && final(existing)@ == old(existing)@
            } else {
                r is Ok && texts(r->Ok_0.removed_from@) == removed_from(
                    old(existing)@,
                    given@,
                    Seq::empty(),
                ) && final(existing)@ == without_items(old(existing)@, given@)
            },
            _ => r is Err && r->Err_0@ == unusable("remove"@, "Remove spec must be a JSON object"@)
                && final(existing)@ == old(existing)@,
        },
{
    match &given {
        Json::Object(members) => {
            proof {
                lemma_object_view(*members);
            }
            if members.len() == 0 {
                return Err(refuse("remove", "Remove spec cannot be empty"));
            }
        },
        _ => {
            return Err(refuse("remove", "Remove spec must be a JSON object"));
        },
    }
    let mut base = Json::Null;
    core::mem::swap(existing, &mut base);
    let mut names: Vec<String> = Vec::new();
    assert(texts(names@) =~= Seq::<Seq<char>>::empty());
    let ghost gone = removed_from(base@, given@, Seq::empty());
    *existing = deep_remove(base, &given, &mut names, "");
    proof {
        reveal_strlit("");
        assert(""@ =~= Seq::<char>::empty());
        assert(Seq::<Seq<char>>::empty() + gone =~= gone);
    }
    Ok(RemoveFields { removed_from: names })
}

} // verus!
