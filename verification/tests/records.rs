use homeboy::config::{
    batch_items, item_id, merge_from_json, patch_target, plan_creation, record_creation,
    remove_from_json, rename, BatchResult, Creation,
};
use homeboy::deploy::{component_of, load_components, local_version_file, StoredComponent};
use homeboy::error::Error;
use homeboy::tree::{get_text, get_value, object_of, same_json, Json, Member};

fn tree(value: &serde_json::Value) -> Json {
    match value {
        serde_json::Value::Null => Json::Null,
        serde_json::Value::Bool(b) => Json::Bool(*b),
        serde_json::Value::Number(n) => Json::Number(n.to_string()),
        serde_json::Value::String(s) => Json::Text(s.clone()),
        serde_json::Value::Array(items) => Json::Array(items.iter().map(tree).collect()),
        serde_json::Value::Object(map) => object_of(
            map.iter().map(|(k, v)| Member { key: k.clone(), value: tree(v) }).collect(),
        ),
    }
}

fn parse(text: &str) -> Json {
    tree(&serde_json::from_str::<serde_json::Value>(text).unwrap())
}

fn assert_same(found: &Json, expected: &str) {
    assert!(same_json(found, &parse(expected)), "found {:?}, expected {}", found, expected);
}

#[test]
fn values_and_texts_are_read_from_objects_only() {
    let record = parse("{\"id\":\"shop\",\"port\":22,\"tags\":[\"a\"]}");
    assert_eq!(get_text(&record, "id").as_deref(), Some("shop"));
    assert_eq!(get_text(&record, "port"), None);
    assert_eq!(get_text(&record, "missing"), None);
    assert!(same_json(get_value(&record, "tags").unwrap(), &parse("[\"a\"]")));
    assert!(get_value(&record, "missing").is_none());
    assert!(get_value(&parse("[1]"), "0").is_none());
    assert_eq!(get_text(&parse("\"id\""), "id"), None);
}

#[test]
fn batch_items_are_the_items_of_a_list_or_the_value() {
    let items = batch_items(parse("[{\"id\":\"a\"},{\"id\":\"b\"},3]"));
    assert_eq!(items.len(), 3);
    assert_eq!(item_id(&items[0]).as_deref(), Some("a"));
    assert_eq!(item_id(&items[1]).as_deref(), Some("b"));
    assert_eq!(item_id(&items[2]), None);

    let items = batch_items(parse("{\"id\":\"only\"}"));
    assert_eq!(items.len(), 1);
    assert_eq!(item_id(&items[0]).as_deref(), Some("only"));

    assert_eq!(batch_items(parse("[]")).len(), 0);
    assert_eq!(item_id(&parse("{\"id\":5}")), None);
    assert_eq!(item_id(&parse("{\"name\":\"x\"}")), None);
}

fn fate(creation: Creation) -> (String, String, Option<String>) {
    match creation {
        Creation::Refused { id, error } => ("refused".to_string(), id, Some(error)),
        Creation::Skipped { id } => ("skipped".to_string(), id, None),
        Creation::Wanted { id } => ("wanted".to_string(), id, None),
    }
}

#[test]
fn plan_creation_goes_by_what_was_found_out() {
    let some = |s: &str| Some(s.to_string());
    assert_eq!(
        fate(plan_creation(None, some("bad id"), some("bad json"), true, true, "component")),
        ("refused".to_string(), "unknown".to_string(), some("Missing required field: id"))
    );
    assert_eq!(
        fate(plan_creation(some("Shop!"), some("Invalid id"), some("bad json"), true, true, "component")),
        ("refused".to_string(), "Shop!".to_string(), some("Invalid id"))
    );
    assert_eq!(
        fate(plan_creation(some("shop"), None, some("missing field `name`"), true, true, "component")),
        ("refused".to_string(), "shop".to_string(), some("Parse error: missing field `name`"))
    );
    assert_eq!(
        fate(plan_creation(some("shop"), None, None, true, true, "component")),
        ("skipped".to_string(), "shop".to_string(), None)
    );
    assert_eq!(
        fate(plan_creation(some("shop"), None, None, true, false, "component")),
        ("refused".to_string(), "shop".to_string(), some("component 'shop' already exists"))
    );
    assert_eq!(
        fate(plan_creation(some("shop"), None, None, false, false, "server")),
        ("wanted".to_string(), "shop".to_string(), None)
    );
    assert_eq!(
        fate(plan_creation(some("shop"), None, None, false, true, "server")),
        ("wanted".to_string(), "shop".to_string(), None)
    );
}

#[test]
fn record_creation_counts_each_item_once() {
    let mut summary = BatchResult::new();
    record_creation(&mut summary, Creation::Wanted { id: "a".to_string() }, None);
    record_creation(&mut summary, Creation::Wanted { id: "b".to_string() }, Some("disk full".to_string()));
    record_creation(&mut summary, Creation::Skipped { id: "c".to_string() }, None);
    record_creation(
        &mut summary,
        Creation::Refused { id: "d".to_string(), error: "no".to_string() },
        Some("not looked at".to_string()),
    );
    assert_eq!((summary.created, summary.skipped, summary.errors), (1, 1, 2));
    let items: Vec<(&str, &str, Option<&str>)> =
        summary.items.iter().map(|i| (i.id.as_str(), i.status.as_str(), i.error.as_deref())).collect();
    assert_eq!(
        items,
        vec![
            ("a", "created", None),
            ("b", "error", Some("disk full")),
            ("c", "skipped", None),
            ("d", "error", Some("no")),
        ]
    );
}

#[test]
fn patch_target_takes_the_id_from_the_argument_or_the_json() {
    let target = patch_target(Some("given"), parse("{\"id\":\"inside\",\"name\":\"N\"}"), "component").unwrap();
    assert_eq!(target.id, "given");
    assert_same(&target.patch, "{\"name\":\"N\"}");

    let target = patch_target(None, parse("{\"id\":\"inside\",\"name\":\"N\"}"), "component").unwrap();
    assert_eq!(target.id, "inside");
    assert_same(&target.patch, "{\"name\":\"N\"}");

    let target = patch_target(Some("given"), parse("[1,2]"), "component").unwrap();
    assert_eq!(target.id, "given");
    assert_same(&target.patch, "[1,2]");

    for json in ["{\"name\":\"N\"}", "{\"id\":7}", "[\"id\"]"] {
        match patch_target(None, parse(json), "server") {
            Err(Error::InvalidArgument { field, message, given, tried }) => {
                assert_eq!(field, "id");
                assert_eq!(message, "Provide server ID as argument or in JSON body");
                assert_eq!((given, tried), (None, None));
            }
            other => panic!("expected a refusal, got {:?}", other),
        }
    }
}

#[test]
fn merge_from_json_merges_and_names_the_record() {
    let mut record = parse("{\"name\":\"Shop\",\"tags\":[\"a\"]}");
    let result = merge_from_json("shop".to_string(), &mut record, parse("{\"tags\":[\"b\"],\"name\":\"Store\"}")).unwrap();
    assert_eq!(result.id, "shop");
    assert_eq!(result.updated_fields, vec!["name", "tags"]);
    assert_same(&record, "{\"name\":\"Store\",\"tags\":[\"a\",\"b\"]}");

    assert!(merge_from_json("shop".to_string(), &mut record, parse("{}")).is_err());
    assert!(merge_from_json("shop".to_string(), &mut record, parse("3")).is_err());
    assert_same(&record, "{\"name\":\"Store\",\"tags\":[\"a\",\"b\"]}");
}

#[test]
fn remove_from_json_removes_and_names_the_record() {
    let mut record = parse("{\"name\":\"Shop\",\"tags\":[\"a\",\"b\"]}");
    let result = remove_from_json("shop".to_string(), &mut record, parse("{\"tags\":[\"a\"]}")).unwrap();
    assert_eq!(result.id, "shop");
    assert_eq!(result.removed_from, vec!["tags"]);
    assert_same(&record, "{\"name\":\"Shop\",\"tags\":[\"b\"]}");

    assert!(remove_from_json("shop".to_string(), &mut record, parse("{}")).is_err());
    assert!(remove_from_json("shop".to_string(), &mut record, parse("[]")).is_err());
}

#[test]
fn rename_gives_the_new_id_in_lowercase() {
    assert_eq!(rename("shop", "Store", false, "component").unwrap().as_deref(), Some("store"));
    assert_eq!(rename("shop", "SHOP", true, "component").unwrap(), None);
    assert_eq!(rename("shop", "shop", false, "component").unwrap(), None);
    match rename("shop", "Store", true, "component") {
        Err(Error::InvalidArgument { field, message, given, tried }) => {
            assert_eq!(field, "component.id");
            assert_eq!(message, "Cannot rename component 'shop' to 'store': destination already exists");
            assert_eq!(given.as_deref(), Some("store"));
            assert_eq!(tried, None);
        }
        other => panic!("expected a refusal, got {:?}", other),
    }
}

#[test]
fn component_of_reads_a_stored_record() {
    let component = component_of(
        "shop",
        &parse(
            "{\"name\":\"Shop\",\"localPath\":\"/src/shop\",\"remotePath\":\"plugins/shop\",\
             \"buildArtifact\":\"dist/shop.zip\",\"buildCommand\":\"make\",\
             \"versionTargets\":[{\"file\":\"shop.php\"},{\"pattern\":\"x\"},\
             {\"file\":\"style.css\",\"pattern\":\"Version: (.*)\"},7]}",
        ),
    );
    assert_eq!(component.id, "shop");
    assert_eq!(component.name, "Shop");
    assert_eq!(component.local_path, "/src/shop");
    assert_eq!(component.remote_path, "plugins/shop");
    assert_eq!(component.build_artifact, "/src/shop/dist/shop.zip");
    assert_eq!(component.build_command.as_deref(), Some("make"));
    let targets: Vec<(String, Option<String>)> =
        component.version_targets.as_ref().unwrap().iter().map(|t| (t.file.clone(), t.pattern.clone())).collect();
    assert_eq!(
        targets,
        vec![
            ("shop.php".to_string(), None),
            ("style.css".to_string(), Some("Version: (.*)".to_string())),
        ]
    );
    assert_eq!(local_version_file(&component).as_deref(), Some("/src/shop/shop.php"));
}

#[test]
fn component_of_fills_in_what_a_record_leaves_out() {
    let component = component_of("shop", &parse("{\"id\":\"other\",\"buildArtifact\":\"/abs/shop.zip\",\"versionTargets\":{}}"));
    assert_eq!(component.id, "other");
    assert_eq!(component.name, "shop");
    assert_eq!(component.local_path, "");
    assert_eq!(component.remote_path, "");
    assert_eq!(component.build_artifact, "/abs/shop.zip");
    assert_eq!(component.build_command, None);
    assert!(component.version_targets.is_none());
    assert_eq!(local_version_file(&component), None);

    let bare = component_of("shop", &parse("{\"buildArtifact\":\"shop.zip\",\"versionTargets\":[]}"));
    assert_eq!(bare.build_artifact, "/shop.zip");
    assert_eq!(bare.version_targets.as_ref().map(|t| t.len()), Some(0));
    assert_eq!(local_version_file(&bare), None);

    let none = component_of("shop", &parse("[]"));
    assert_eq!((none.id.as_str(), none.name.as_str(), none.build_artifact.as_str()), ("shop", "shop", ""));
}

#[test]
fn load_components_leaves_out_ids_without_a_record() {
    let records = vec![
        StoredComponent { id: "a".to_string(), config: Some(parse("{\"name\":\"A\"}")) },
        StoredComponent { id: "gone".to_string(), config: None },
        StoredComponent { id: "b".to_string(), config: Some(parse("{\"id\":\"bee\"}")) },
    ];
    let components = load_components(&records);
    let seen: Vec<(&str, &str)> = components.iter().map(|c| (c.id.as_str(), c.name.as_str())).collect();
    assert_eq!(seen, vec![("a", "A"), ("bee", "b")]);
    assert!(load_components(&Vec::new()).is_empty());
}
