use homeboy::error::Error;
use homeboy::split::split_char;
use homeboy::tree::{
    array_union, contains_json, deep_merge, deep_remove, find_member, get_member, merge_config,
    merge_json_sources, object_of, put_member, read_tokens, remove_config, same_json, set_at,
    set_child, set_json_pointer, take_member, value_type_name, Json, Member,
};

fn tree(value: &serde_json::Value) -> Json {
    match value {
        serde_json::Value::Null => Json::Null,
        serde_json::Value::Bool(b) => Json::Bool(*b),
        serde_json::Value::Number(n) => Json::Number(n.to_string()),
        serde_json::Value::String(s) => Json::Text(s.clone()),
        serde_json::Value::Array(items) => Json::Array(items.iter().map(tree).collect()),
        serde_json::Value::Object(map) => object_of(
            map.iter().map(|(k, v)| Member { key: k.clone(), value: tree(v) }).collect(),
        ),
    }
}

fn parse(text: &str) -> Json {
    tree(&serde_json::from_str::<serde_json::Value>(text).unwrap())
}

fn members(text: &str) -> Vec<Member> {
    match parse(text) {
        Json::Object(members) => members,
        other => panic!("expected an object, got {:?}", other),
    }
}

fn assert_same(found: &Json, expected: &str) {
    assert!(same_json(found, &parse(expected)), "found {:?}, expected {}", found, expected);
}

fn keys(value: &Json) -> Vec<String> {
    match value {
        Json::Object(members) => members.iter().map(|m| m.key.clone()).collect(),
        other => panic!("expected an object, got {:?}", other),
    }
}

#[test]
fn same_json_tells_values_apart() {
    assert!(same_json(&parse("null"), &Json::Null));
    assert!(same_json(&parse("{\"a\":[1,2,{\"b\":\"x\"}]}"), &parse("{ \"a\": [1, 2, {\"b\": \"x\"}] }")));
    assert!(!same_json(&parse("{\"a\":[1,2]}"), &parse("{\"a\":[2,1]}")));
    assert!(!same_json(&parse("{\"a\":1}"), &parse("{\"b\":1}")));
    assert!(!same_json(&parse("{\"a\":1}"), &parse("{\"a\":1,\"b\":2}")));
    assert!(!same_json(&parse("1"), &parse("\"1\"")));
    assert!(!same_json(&parse("1"), &parse("1.5")));
    assert!(!same_json(&parse("true"), &parse("false")));
    assert!(!same_json(&parse("[]"), &parse("{}")));
    assert!(same_json(&parse("{\"b\":1,\"a\":2}"), &parse("{\"a\":2,\"b\":1}")));
}

#[test]
fn value_type_name_names_each_kind() {
    assert_eq!(value_type_name(&parse("null")), "null");
    assert_eq!(value_type_name(&parse("true")), "bool");
    assert_eq!(value_type_name(&parse("12")), "number");
    assert_eq!(value_type_name(&parse("\"x\"")), "string");
    assert_eq!(value_type_name(&parse("[]")), "array");
    assert_eq!(value_type_name(&parse("{}")), "object");
}

#[test]
fn object_of_orders_keys_and_lets_the_later_member_win() {
    let object = object_of(vec![
        Member { key: "b".to_string(), value: Json::Bool(true) },
        Member { key: "a".to_string(), value: Json::Null },
        Member { key: "c".to_string(), value: Json::Text("first".to_string()) },
        Member { key: "c".to_string(), value: Json::Text("second".to_string()) },
        Member { key: "B".to_string(), value: Json::Bool(false) },
    ]);
    assert_eq!(keys(&object), vec!["B", "a", "b", "c"]);
    assert_same(&object, "{\"B\":false,\"a\":null,\"b\":true,\"c\":\"second\"}");
}

#[test]
fn members_are_found_put_and_taken() {
    let mut list = members("{\"a\":1,\"c\":3}");
    assert_eq!(find_member(&list, "a"), Some(0));
    assert_eq!(find_member(&list, "c"), Some(1));
    assert_eq!(find_member(&list, "b"), None);
    assert!(same_json(get_member(&list, "c").unwrap(), &parse("3")));
    assert!(get_member(&list, "x").is_none());

    put_member(&mut list, "b".to_string(), parse("2"));
    put_member(&mut list, "a".to_string(), parse("\"one\""));
    put_member(&mut list, "d".to_string(), parse("4"));
    let object = Json::Object(list);
    assert_eq!(keys(&object), vec!["a", "b", "c", "d"]);
    assert_same(&object, "{\"a\":\"one\",\"b\":2,\"c\":3,\"d\":4}");

    let mut list = members("{\"a\":1,\"c\":3}");
    let taken = take_member(&mut list, "a").unwrap();
    assert!(same_json(&taken, &parse("1")));
    assert!(take_member(&mut list, "a").is_none());
    assert_same(&Json::Object(list), "{\"c\":3}");
}

#[test]
fn deep_merge_merges_objects_member_by_member() {
    let merged = deep_merge(
        parse("{\"name\":\"old\",\"keep\":1,\"nested\":{\"x\":1,\"y\":2}}"),
        parse("{\"name\":\"new\",\"nested\":{\"y\":3,\"z\":4},\"added\":true}"),
    );
    assert_same(
        &merged,
        "{\"name\":\"new\",\"keep\":1,\"nested\":{\"x\":1,\"y\":3,\"z\":4},\"added\":true}",
    );
}

#[test]
fn deep_merge_removes_the_keys_that_the_patch_sets_to_null() {
    let merged = deep_merge(parse("{\"a\":1,\"b\":2}"), parse("{\"a\":null,\"missing\":null}"));
    assert_same(&merged, "{\"b\":2}");
}

#[test]
fn deep_merge_keeps_nulls_inside_an_object_that_is_new() {
    let merged = deep_merge(parse("{}"), parse("{\"a\":{\"b\":null}}"));
    assert_same(&merged, "{\"a\":{\"b\":null}}");
}

#[test]
fn deep_merge_adds_the_items_a_list_lacks() {
    let merged = deep_merge(
        parse("{\"tags\":[\"a\",\"b\"]}"),
        parse("{\"tags\":[\"b\",\"c\",\"c\",{\"k\":1}]}"),
    );
    assert_same(&merged, "{\"tags\":[\"a\",\"b\",\"c\",{\"k\":1}]}");
}

#[test]
fn deep_merge_replaces_values_of_different_kinds() {
    assert_same(&deep_merge(parse("{\"a\":1}"), parse("[1]")), "[1]");
    assert_same(&deep_merge(parse("[1]"), parse("{\"a\":1}")), "{\"a\":1}");
    assert_same(&deep_merge(parse("\"x\""), parse("5")), "5");
    assert_same(&deep_merge(parse("{\"a\":[1]}"), parse("{\"a\":{\"b\":2}}")), "{\"a\":{\"b\":2}}");
    assert_same(&deep_merge(parse("{\"a\":1}"), parse("null")), "null");
}

#[test]
fn array_union_keeps_the_order_of_both_lists() {
    let mut base = match parse("[3,1]") {
        Json::Array(items) => items,
        _ => unreachable!(),
    };
    let patch = match parse("[2,1,3,4,2]") {
        Json::Array(items) => items,
        _ => unreachable!(),
    };
    assert!(contains_json(&base, &parse("3")));
    assert!(!contains_json(&base, &parse("2")));
    array_union(&mut base, patch);
    assert_same(&Json::Array(base), "[3,1,2,4]");
}

#[test]
fn deep_remove_takes_items_from_lists_and_names_them() {
    let mut removed = vec!["before".to_string()];
    let left = deep_remove(
        parse("{\"tags\":[\"a\",\"b\",\"c\",\"b\"],\"other\":[1,2],\"deep\":{\"list\":[1,2,3],\"name\":\"n\"},\"kept\":[5]}"),
        &parse("{\"tags\":[\"b\",\"x\"],\"other\":[3],\"deep\":{\"list\":[1,3],\"name\":\"n\"},\"absent\":[1]}"),
        &mut removed,
        "",
    );
    assert_same(
        &left,
        "{\"tags\":[\"a\",\"c\"],\"other\":[1,2],\"deep\":{\"list\":[2],\"name\":\"n\"},\"kept\":[5]}",
    );
    assert_eq!(removed, vec!["before", "deep.list", "tags"]);
}

#[test]
fn deep_remove_names_lists_under_the_path_it_is_given() {
    let mut removed = Vec::new();
    let left = deep_remove(parse("{\"a\":{\"b\":[1]}}"), &parse("{\"a\":{\"b\":[1]}}"), &mut removed, "root");
    assert_same(&left, "{\"a\":{\"b\":[]}}");
    assert_eq!(removed, vec!["root.a.b"]);

    let mut removed = Vec::new();
    let left = deep_remove(parse("[1,2]"), &parse("[2]"), &mut removed, "list");
    assert_same(&left, "[1]");
    assert_eq!(removed, vec!["list"]);

    let mut removed = Vec::new();
    let left = deep_remove(parse("[1,2]"), &parse("{\"a\":1}"), &mut removed, "list");
    assert_same(&left, "[1,2]");
    assert!(removed.is_empty());
}

#[test]
fn read_tokens_reads_the_parts_of_a_pointer() {
    assert_eq!(read_tokens(""), Vec::<String>::new());
    assert_eq!(read_tokens("/a"), vec!["a"]);
    assert_eq!(read_tokens("/a/b~1c/~0d"), vec!["a", "b/c", "~d"]);
    assert_eq!(read_tokens("/a//b/"), vec!["a", "", "b", ""]);
    assert_eq!(split_char("", '/'), vec![""]);
    assert_eq!(split_char("a/b", '/'), vec!["a", "b"]);
    assert_eq!(split_char("/a/", '/'), vec!["", "a", ""]);
}

#[test]
fn set_json_pointer_sets_the_root_for_the_empty_pointer() {
    let mut root = parse("{\"a\":1}");
    set_json_pointer(&mut root, "", parse("[1,2]")).unwrap();
    assert_same(&root, "[1,2]");
}

#[test]
fn set_json_pointer_makes_the_way_to_the_value() {
    let mut root = parse("{\"a\":{\"x\":1}}");
    set_json_pointer(&mut root, "/a/b/c", parse("true")).unwrap();
    assert_same(&root, "{\"a\":{\"x\":1,\"b\":{\"c\":true}}}");

    let mut root = parse("{\"a\":null}");
    set_json_pointer(&mut root, "/a/b/c", parse("1")).unwrap();
    assert_same(&root, "{\"a\":{\"b\":{\"c\":1}}}");

    let mut root = Json::Null;
    set_json_pointer(&mut root, "/a/b", parse("1")).unwrap();
    assert_same(&root, "{\"a\":{\"b\":1}}");

    let mut root = parse("{}");
    set_json_pointer(&mut root, "/a~1b/c~0d", parse("1")).unwrap();
    assert_same(&root, "{\"a/b\":{\"c~d\":1}}");
}

#[test]
fn set_json_pointer_goes_into_lists_by_index() {
    let mut root = parse("{\"list\":[{\"a\":1},{\"a\":2}]}");
    set_json_pointer(&mut root, "/list/1/a", parse("3")).unwrap();
    assert_same(&root, "{\"list\":[{\"a\":1},{\"a\":3}]}");

    set_json_pointer(&mut root, "/list/0", parse("\"x\"")).unwrap();
    assert_same(&root, "{\"list\":[\"x\",{\"a\":3}]}");
}

#[test]
fn set_json_pointer_refuses_what_it_cannot_set() {
    let mut root = parse("{\"a\":1}");
    match set_json_pointer(&mut root, "/", parse("1")) {
        Err(Error::InvalidArgument { field, message, .. }) => {
            assert_eq!((field.as_str(), message.as_str()), ("pointer", "Invalid JSON pointer '/'"));
        }
        other => panic!("expected a refusal, got {:?}", other),
    }
    match set_json_pointer(&mut root, "a/b", parse("1")) {
        Err(Error::InvalidArgument { field, message, .. }) => {
            assert_eq!(field, "pointer");
            assert_eq!(message, "JSON pointer must start with '/': a/b");
        }
        other => panic!("expected a refusal, got {:?}", other),
    }
    match set_json_pointer(&mut root, "/a/b/c", parse("1")) {
        Err(Error::InvalidValue { key, value, problem }) => {
            assert_eq!(key, "/a/b");
            assert_eq!(value.as_deref(), Some("number"));
            assert_eq!(problem, "Expected object/array at pointer");
        }
        other => panic!("expected a refusal, got {:?}", other),
    }
    match set_json_pointer(&mut root, "/a/b", parse("1")) {
        Err(Error::InvalidValue { key, value, problem }) => {
            assert_eq!(key, "jsonPointer");
            assert_eq!(value.as_deref(), Some("number"));
            assert_eq!(problem, "Cannot set child on non-container");
        }
        other => panic!("expected a refusal, got {:?}", other),
    }
    assert_same(&root, "{\"a\":1}");

    let mut root = Json::Null;
    match set_json_pointer(&mut root, "/a", parse("1")) {
        Err(Error::InvalidValue { key, value, .. }) => {
            assert_eq!(key, "jsonPointer");
            assert_eq!(value.as_deref(), Some("null"));
        }
        other => panic!("expected a refusal, got {:?}", other),
    }
}

#[test]
fn set_json_pointer_refuses_places_a_list_does_not_have() {
    let mut root = parse("{\"list\":[1,2]}");
    match set_json_pointer(&mut root, "/list/2", parse("3")) {
        Err(Error::InvalidValue { key, value, problem }) => {
            assert_eq!(key, "arrayIndex");
            assert_eq!(value.as_deref(), Some("2"));
            assert_eq!(problem, "Array index out of bounds");
        }
        other => panic!("expected a refusal, got {:?}", other),
    }
    match set_json_pointer(&mut root, "/list/x", parse("3")) {
        Err(Error::InvalidArgument { field, message, given, .. }) => {
            assert_eq!(field, "arrayIndex");
            assert_eq!(message, "Invalid array index token");
            assert_eq!(given.as_deref(), Some("x"));
        }
        other => panic!("expected a refusal, got {:?}", other),
    }
    match set_json_pointer(&mut root, "/list/5/a", parse("3")) {
        Err(Error::InvalidValue { key, value, problem }) => {
            assert_eq!(key, "/list/5");
            assert_eq!(value, None);
            assert_eq!(problem, "Array index out of bounds while creating path");
        }
        other => panic!("expected a refusal, got {:?}", other),
    }
    match set_json_pointer(&mut root, "/list/x/a", parse("3")) {
        Err(Error::InvalidArgument { field, given, .. }) => {
            assert_eq!(field, "arrayIndex");
            assert_eq!(given.as_deref(), Some("x"));
        }
        other => panic!("expected a refusal, got {:?}", other),
    }
    assert_same(&root, "{\"list\":[1,2]}");
}

#[test]
fn set_json_pointer_makes_objects_for_tokens_that_look_like_places() {
    let mut root = parse("{\"a\":{\"list\":[]}}");
    set_json_pointer(&mut root, "/a/other/list/0/x", parse("1")).unwrap();
    assert_same(&root, "{\"a\":{\"list\":[],\"other\":{\"list\":{\"0\":{\"x\":1}}}}}");
}

#[test]
fn set_json_pointer_leaves_the_tree_alone_where_it_refuses() {
    let before = "{\"a\":{\"b\":{\"c\":1},\"list\":[[],{\"n\":null}]},\"z\":5}";
    for pointer in ["/a/b/c/d", "/a/b/c/d/e", "/z/y", "/a/list/2", "/a/list/0/0", "/a/list/0/0/x", "/a/list/-1/x", "/a/list/1/n/x", "/"] {
        let mut root = parse(before);
        assert!(set_json_pointer(&mut root, pointer, parse("1")).is_err(), "{}", pointer);
        assert_same(&root, before);
    }
    let mut root = parse(before);
    assert!(set_json_pointer(&mut root, "/a/list/1/n/x/y", parse("1")).is_ok());
    assert_same(&root, "{\"a\":{\"b\":{\"c\":1},\"list\":[[],{\"n\":{\"x\":{\"y\":1}}}]},\"z\":5}");
}

#[test]
fn set_at_and_set_child_hand_the_tree_back_with_the_reason() {
    let (after, refusal) = set_child(parse("{\"a\":1}"), "b", parse("2"));
    assert!(refusal.is_none());
    assert_same(&after, "{\"a\":1,\"b\":2}");

    let (after, refusal) = set_child(parse("\"text\""), "b", parse("2"));
    assert!(matches!(refusal, Some(Error::InvalidValue { .. })));
    assert_same(&after, "\"text\"");

    let tokens = vec!["made".to_string(), "on".to_string(), "way".to_string()];
    let (after, refusal) = set_at(parse("{\"made\":{\"on\":5}}"), &tokens, 0, "/made/on/way", "x", parse("1"));
    assert!(matches!(refusal, Some(Error::InvalidValue { .. })));
    assert_same(&after, "{\"made\":{\"on\":5}}");

    let (after, refusal) = set_at(parse("{}"), &tokens, 0, "/made/on/way", "0", parse("1"));
    assert!(refusal.is_none());
    assert_same(&after, "{\"made\":{\"on\":{\"way\":{\"0\":1}}}}");

    let (after, refusal) = set_at(parse("{\"made\":[]}"), &tokens, 1, "/on/way", "x", parse("1"));
    assert!(refusal.is_none());
    assert_same(&after, "{\"made\":[],\"on\":{\"way\":{\"x\":1}}}");
}

#[test]
fn merge_config_merges_a_patch_and_names_its_keys() {
    let mut record = parse("{\"name\":\"Shop\",\"tags\":[\"a\"],\"port\":22}");
    let fields = merge_config(&mut record, parse("{\"tags\":[\"b\"],\"name\":\"Store\",\"port\":null}")).unwrap();
    assert_eq!(fields.updated_fields, vec!["name", "port", "tags"]);
    assert_same(&record, "{\"name\":\"Store\",\"tags\":[\"a\",\"b\"]}");
}

#[test]
fn merge_config_refuses_a_patch_that_is_no_object_or_empty() {
    let mut record = parse("{\"name\":\"Shop\"}");
    match merge_config(&mut record, parse("[1]")) {
        Err(Error::InvalidArgument { field, message, given, tried }) => {
            assert_eq!(field, "merge");
            assert_eq!(message, "Merge patch must be a JSON object");
            assert_eq!((given, tried), (None, None));
        }
        other => panic!("expected a refusal, got {:?}", other),
    }
    match merge_config(&mut record, parse("{}")) {
        Err(Error::InvalidArgument { field, message, .. }) => {
            assert_eq!(field, "merge");
            assert_eq!(message, "Merge patch cannot be empty");
        }
        other => panic!("expected a refusal, got {:?}", other),
    }
    assert_same(&record, "{\"name\":\"Shop\"}");
}

#[test]
fn remove_config_takes_items_and_names_the_lists() {
    let mut record = parse("{\"tags\":[\"a\",\"b\"],\"nested\":{\"ids\":[1,2,3]},\"name\":\"n\"}");
    let fields = remove_config(&mut record, parse("{\"tags\":[\"b\"],\"nested\":{\"ids\":[9]},\"name\":\"n\"}")).unwrap();
    assert_eq!(fields.removed_from, vec!["tags"]);
    assert_same(&record, "{\"tags\":[\"a\"],\"nested\":{\"ids\":[1,2,3]},\"name\":\"n\"}");

    let fields = remove_config(&mut record, parse("{\"nested\":{\"ids\":[1,3]}}")).unwrap();
    assert_eq!(fields.removed_from, vec!["nested.ids"]);
    assert_same(&record, "{\"tags\":[\"a\"],\"nested\":{\"ids\":[2]},\"name\":\"n\"}");
}

#[test]
fn remove_config_refuses_a_spec_that_is_no_object_or_empty() {
    let mut record = parse("{\"tags\":[\"a\"]}");
    match remove_config(&mut record, parse("\"tags\"")) {
        Err(Error::InvalidArgument { field, message, .. }) => {
            assert_eq!(field, "remove");
            assert_eq!(message, "Remove spec must be a JSON object");
        }
        other => panic!("expected a refusal, got {:?}", other),
    }
    match remove_config(&mut record, parse("{}")) {
        Err(Error::InvalidArgument { field, message, .. }) => {
            assert_eq!(field, "remove");
            assert_eq!(message, "Remove spec cannot be empty");
        }
        other => panic!("expected a refusal, got {:?}", other),
    }
    assert_same(&record, "{\"tags\":[\"a\"]}");
}

#[test]
fn merge_json_sources_puts_flags_over_the_json() {
    let all = merge_json_sources(Some(parse("{\"a\":1,\"b\":{\"c\":2}}")), members("{\"b\":{\"d\":3},\"e\":true}")).unwrap();
    assert_same(&all, "{\"a\":1,\"b\":{\"c\":2,\"d\":3},\"e\":true}");

    let all = merge_json_sources(None, members("{\"e\":true}")).unwrap();
    assert_same(&all, "{\"e\":true}");

    let all = merge_json_sources(None, Vec::new()).unwrap();
    assert_same(&all, "{}");

    let all = merge_json_sources(Some(parse("[1]")), members("{\"e\":true}")).unwrap();
    assert_same(&all, "{\"e\":true}");
}

#[test]
fn merge_json_sources_refuses_json_that_is_no_object() {
    match merge_json_sources(Some(parse("[1]")), Vec::new()) {
        Err(Error::InvalidArgument { field, message, .. }) => {
            assert_eq!(field, "json");
            assert_eq!(message, "JSON spec must be an object");
        }
        other => panic!("expected a refusal, got {:?}", other),
    }
}
