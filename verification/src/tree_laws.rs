//! What holds of JSON trees whose objects hold each key once, in the order of the keys: the
//! changes that are made to them leave them so.

use vstd::prelude::*;
use crate::json::index_of_token;
use crate::search::{lemma_position, lemma_position_is, position};
use crate::text::{
    insert_point, lemma_insert_point, lemma_text_lt_connected, lemma_text_lt_irreflexive,
    lemma_text_lt_transitive, text_lt,
};
use crate::tree::{
    child_set, collected, kept_items, keys_of, member, members_without, merged, merged_members,
    or_empty_object, or_null, placed, union_of, with_member, without_items, without_member,
    JsonView, MemberView,
};

verus! {

/// Each key comes before the keys of the members behind it.
pub open spec fn keys_ascend(members: Seq<MemberView>) -> bool {
    forall|i: int, j: int|
        0 <= i < j < members.len() ==> text_lt(#[trigger] members[i].key, #[trigger] members[j].key)
}

/// Every object of the tree holds its members in the order of their keys, and so no key
/// twice.
pub open spec fn well_formed(v: JsonView) -> bool
    decreases v,
{
    match v {
        JsonView::Array(a) => forall|i: int| 0 <= i < a.len() ==> well_formed(#[trigger] a[i]),
        JsonView::Object(m) => keys_ascend(m) && forall|i: int|
            0 <= i < m.len() ==> well_formed((#[trigger] m[i]).value),
        _ => true,
    }
}

/// The members are in the order of their keys, and their values are well formed.
pub open spec fn members_well_formed(m: Seq<MemberView>) -> bool {
    well_formed(JsonView::Object(m))
}

/// The items are well formed.
pub open spec fn items_well_formed(a: Seq<JsonView>) -> bool {
    well_formed(JsonView::Array(a))
}

/// A list is well formed where each of its items is.
pub proof fn lemma_items_well_formed(a: Seq<JsonView>)
    ensures
        items_well_formed(a) == (forall|i: int| 0 <= i < a.len() ==> well_formed(#[trigger] a[i])),
{
    assert(JsonView::Array(a)->Array_0 == a);
}

/// The value under a key of well-formed members is well formed.
pub proof fn lemma_member_well_formed(m: Seq<MemberView>, key: Seq<char>)
    requires
        members_well_formed(m),
    ensures
        well_formed(or_null(member(m, key))),
        well_formed(or_empty_object(member(m, key))),
{
    lemma_position(keys_of(m), key);
    let p = position(keys_of(m), key);
    if p >= 0 {
        assert(well_formed(m[p].value));
    } else {
        assert(keys_ascend(Seq::<MemberView>::empty()));
    }
}

/// Putting a well-formed value under a key leaves well-formed members well formed, and the
/// value is then found under the key.
pub proof fn lemma_with_member(m: Seq<MemberView>, key: Seq<char>, value: JsonView)
    requires
        members_well_formed(m),
        well_formed(value),
    ensures
        members_well_formed(with_member(m, key, value)),
        member(with_member(m, key, value), key) == Some(value),
{
    let keys = keys_of(m);
    let after = with_member(m, key, value);
    lemma_position(keys, key);
    let p = position(keys, key);
    if p >= 0 {
        assert(keys[p] == key);
        assert forall|i: int, j: int| 0 <= i < j < after.len() implies text_lt(
            #[trigger] after[i].key,
            #[trigger] after[j].key,
        ) by {
            assert(after[i].key == m[i].key && after[j].key == m[j].key);
        }
        assert forall|i: int| 0 <= i < after.len() implies well_formed(
            (#[trigger] after[i]).value,
        ) by {
            if i != p {
                assert(after[i] == m[i]);
            }
        }
        assert(keys_of(after) =~= keys);
    } else {
        let at = insert_point(keys, key);
        lemma_insert_point(keys, key);
        assert forall|j: int| 0 <= j < at implies text_lt(#[trigger] m[j].key, key) by {
            assert(keys[j] == m[j].key);
            assert(!text_lt(key, keys[j]));
            if keys[j] == key {
                assert(0 <= position(keys, key));
            }
            lemma_text_lt_connected(m[j].key, key);
        }
        assert forall|j: int| at <= j < m.len() implies text_lt(key, #[trigger] m[j].key) by {
            assert(keys[at] == m[at].key);
            if j > at {
                lemma_text_lt_transitive(key, m[at].key, m[j].key);
            }
        }
        assert forall|i: int, j: int| 0 <= i < j < after.len() implies text_lt(
            #[trigger] after[i].key,
            #[trigger] after[j].key,
        ) by {
            if j < at {
                assert(after[i] == m[i] && after[j] == m[j]);
            } else if j == at {
                assert(after[i] == m[i]);
            } else if i < at {
                assert(after[i] == m[i] && after[j] == m[j - 1]);
            } else if i == at {
                assert(after[j] == m[j - 1]);
            } else {
                assert(after[i] == m[i - 1] && after[j] == m[j - 1]);
            }
        }
        assert forall|i: int| 0 <= i < after.len() implies well_formed(
            (#[trigger] after[i]).value,
        ) by {
            if i < at {
                assert(after[i] == m[i]);
            } else if i > at {
                assert(after[i] == m[i - 1]);
            }
        }
        let keys_after = keys_of(after);
        assert(keys_after[at] == key);
        assert forall|i: int| 0 <= i < at implies #[trigger] keys_after[i] != key by {
            assert(after[i] == m[i]);
            lemma_text_lt_irreflexive(key);
        }
        lemma_position_is(keys_after, key, at);
    }
}

/// Taking a key out leaves well-formed members well formed, and the key is then gone.
pub proof fn lemma_without_member(m: Seq<MemberView>, key: Seq<char>)
    requires
        members_well_formed(m),
    ensures
        members_well_formed(without_member(m, key)),
        member(without_member(m, key), key) is None,
{
    let keys = keys_of(m);
    let after = without_member(m, key);
    lemma_position(keys, key);
    let p = position(keys, key);
    if p >= 0 {
        assert forall|i: int, j: int| 0 <= i < j < after.len() implies text_lt(
            #[trigger] after[i].key,
            #[trigger] after[j].key,
        ) by {
            let a = if i < p { i } else { i + 1 };
            let b = if j < p { j } else { j + 1 };
            assert(after[i] == m[a] && after[j] == m[b]);
        }
        assert forall|i: int| 0 <= i < after.len() implies well_formed(
            (#[trigger] after[i]).value,
        ) by {
            let a = if i < p { i } else { i + 1 };
            assert(after[i] == m[a]);
        }
        let keys_after = keys_of(after);
        assert forall|i: int| 0 <= i < keys_after.len() implies #[trigger] keys_after[i] != key by {
            let a = if i < p { i } else { i + 1 };
            assert(after[i] == m[a]);
            assert(keys[p] == m[p].key);
            if a < p {
                assert(text_lt(m[a].key, m[p].key));
            } else {
                assert(text_lt(m[p].key, m[a].key));
            }
            lemma_text_lt_irreflexive(key);
        }
        lemma_position_is(keys_after, key, -1);
    }
}

/// The union of two lists of well-formed values holds well-formed values.
pub proof fn lemma_union_well_formed(base: Seq<JsonView>, patch: Seq<JsonView>)
    requires
        items_well_formed(base),
        items_well_formed(patch),
    ensures
        items_well_formed(union_of(base, patch)),
    decreases patch.len(),
{
    if patch.len() > 0 {
        let head = patch.drop_last();
        lemma_items_well_formed(patch);
        lemma_items_well_formed(head);
        assert forall|i: int| 0 <= i < head.len() implies well_formed(#[trigger] head[i]) by {
            assert(head[i] == patch[i]);
        }
        lemma_union_well_formed(base, head);
        let before = union_of(base, head);
        lemma_items_well_formed(before);
        if !before.contains(patch.last()) {
            let after = before.push(patch.last());
            lemma_items_well_formed(after);
            assert forall|i: int| 0 <= i < after.len() implies well_formed(#[trigger] after[i]) by {
                if i < before.len() {
                    assert(after[i] == before[i]);
                } else {
                    assert(after[i] == patch[patch.len() - 1]);
                }
            }
        }
    }
}

/// Merging a well-formed patch into a well-formed value gives a well-formed value.
pub proof fn lemma_merged_well_formed(base: JsonView, patch: JsonView)
    requires
        well_formed(base),
        well_formed(patch),
    ensures
        well_formed(merged(base, patch)),
    decreases patch, 0nat,
{
    match (base, patch) {
        (JsonView::Object(b), JsonView::Object(p)) => {
            lemma_merged_members_well_formed(b, p, p.len());
        },
        (JsonView::Array(b), JsonView::Array(p)) => {
            lemma_union_well_formed(b, p);
        },
        _ => {},
    }
}

/// Merging members of a well-formed patch into well-formed members leaves them well formed.
pub proof fn lemma_merged_members_well_formed(b: Seq<MemberView>, p: Seq<MemberView>, n: nat)
    requires
        members_well_formed(b),
        members_well_formed(p),
    ensures
        members_well_formed(merged_members(b, p, n)),
    decreases p, n,
{
    if 0 < n <= p.len() {
        lemma_merged_members_well_formed(b, p, (n - 1) as nat);
        let before = merged_members(b, p, (n - 1) as nat);
        let m = p[n - 1];
        assert(well_formed(m.value));
        if m.value is Null {
            lemma_without_member(before, m.key);
        } else {
            lemma_member_well_formed(before, m.key);
            lemma_merged_well_formed(or_null(member(before, m.key)), m.value);
            lemma_with_member(
                before,
                m.key,
                merged(or_null(member(before, m.key)), m.value),
            );
        }
    }
}

/// The items that are kept of a list of well-formed values are well formed.
pub proof fn lemma_kept_well_formed(base: Seq<JsonView>, given: Seq<JsonView>)
    requires
        items_well_formed(base),
    ensures
        items_well_formed(kept_items(base, given)),
        kept_items(base, given).len() <= base.len(),
    decreases base.len(),
{
    if base.len() > 0 {
        let head = base.drop_last();
        lemma_items_well_formed(base);
        lemma_items_well_formed(head);
        assert forall|i: int| 0 <= i < head.len() implies well_formed(#[trigger] head[i]) by {
            assert(head[i] == base[i]);
        }
        lemma_kept_well_formed(head, given);
        let before = kept_items(head, given);
        lemma_items_well_formed(before);
        if !given.contains(base.last()) {
            let after = before.push(base.last());
            lemma_items_well_formed(after);
            assert forall|i: int| 0 <= i < after.len() implies well_formed(#[trigger] after[i]) by {
                if i < before.len() {
                    assert(after[i] == before[i]);
                } else {
                    assert(after[i] == base[base.len() - 1]);
                }
            }
        }
    }
}

/// Taking items from a well-formed value gives a well-formed value.
pub proof fn lemma_without_items_well_formed(base: JsonView, given: JsonView)
    requires
        well_formed(base),
    ensures
        well_formed(without_items(base, given)),
    decreases given, 0nat,
{
    match (base, given) {
        (JsonView::Object(b), JsonView::Object(s)) => {
            lemma_members_without_well_formed(b, s, s.len());
        },
        (JsonView::Array(b), JsonView::Array(s)) => {
            lemma_kept_well_formed(b, s);
        },
        _ => {},
    }
}

/// Taking items from the values of well-formed members leaves them well formed.
pub proof fn lemma_members_without_well_formed(b: Seq<MemberView>, s: Seq<MemberView>, n: nat)
    requires
        members_well_formed(b),
    ensures
        members_well_formed(members_without(b, s, n)),
    decreases s, n,
{
    if 0 < n <= s.len() {
        lemma_members_without_well_formed(b, s, (n - 1) as nat);
        let before = members_without(b, s, (n - 1) as nat);
        let m = s[n - 1];
        match member(before, m.key) {
            Some(child) => {
                lemma_member_well_formed(before, m.key);
                lemma_without_items_well_formed(child, m.value);
                lemma_with_member(before, m.key, without_items(child, m.value));
            },
            None => {},
        }
    }
}

/// Setting a well-formed value under a token of a well-formed parent leaves it well formed.
pub proof fn lemma_child_set_well_formed(parent: JsonView, token: Seq<char>, value: JsonView)
    requires
        well_formed(parent),
        well_formed(value),
    ensures
        well_formed(child_set(parent, token, value).value),
{
    match parent {
        JsonView::Object(m) => {
            lemma_with_member(m, token, value);
        },
        JsonView::Array(a) => {
            let after = child_set(parent, token, value).value;
            if after != parent {
                let items = after->Array_0;
                assert forall|i: int| 0 <= i < items.len() implies well_formed(
                    #[trigger] items[i],
                ) by {
                    if items[i] != value {
                        assert(items[i] == a[i]);
                    }
                }
            }
        },
        _ => {},
    }
}

/// Setting a well-formed value somewhere in a well-formed tree leaves the tree well formed.
pub proof fn lemma_placed_well_formed(
    node: JsonView,
    tokens: Seq<Seq<char>>,
    pointer: Seq<char>,
    last: Seq<char>,
    value: JsonView,
)
    requires
        well_formed(node),
        well_formed(value),
    ensures
        well_formed(placed(node, tokens, pointer, last, value).value),
    decreases tokens.len(),
{
    if tokens.len() == 0 {
        lemma_child_set_well_formed(node, last, value);
    } else {
        let rest = tokens.drop_first();
        let none = Seq::<MemberView>::empty();
        assert(members_well_formed(none));
        match node {
            JsonView::Object(m) => {
                lemma_member_well_formed(m, tokens[0]);
                let child = or_empty_object(member(m, tokens[0]));
                lemma_placed_well_formed(child, rest, pointer, last, value);
                lemma_with_member(m, tokens[0], placed(child, rest, pointer, last, value).value);
            },
            JsonView::Null => {
                let child = JsonView::Object(none);
                lemma_placed_well_formed(child, rest, pointer, last, value);
                lemma_with_member(none, tokens[0], placed(child, rest, pointer, last, value).value);
            },
            JsonView::Array(a) => {
                let after = placed(node, tokens, pointer, last, value).value;
                if after != node {
                    let i = index_of_token(tokens[0])->Ok_0 as int;
                    assert(well_formed(a[i]));
                    lemma_placed_well_formed(a[i], rest, pointer, last, value);
                    let inside = placed(a[i], rest, pointer, last, value).value;
                    let items = after->Array_0;
                    assert forall|j: int| 0 <= j < items.len() implies well_formed(
                        #[trigger] items[j],
                    ) by {
                        if j != i {
                            assert(items[j] == a[j]);
                        }
                    }
                }
            },
            _ => {},
        }
    }
}

/// The members of a list of well-formed values, collected into an object, are well formed.
pub proof fn lemma_collected_well_formed(members: Seq<MemberView>)
    requires
        forall|i: int| 0 <= i < members.len() ==> well_formed((#[trigger] members[i]).value),
    ensures
        members_well_formed(collected(members)),
    decreases members.len(),
{
    if members.len() > 0 {
        let head = members.drop_last();
        assert forall|i: int| 0 <= i < head.len() implies well_formed(
            (#[trigger] head[i]).value,
        ) by {
            assert(head[i] == members[i]);
        }
        lemma_collected_well_formed(head);
        assert(well_formed(members[members.len() - 1].value));
        lemma_with_member(collected(head), members.last().key, members.last().value);
    }
}

} // verus!
