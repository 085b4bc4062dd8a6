//! Tests of the loader: parsing against the closed schema, the stamped
//! location, and the reserved-name diagnostics.

use rojo_project::json::Json;
use rojo_project::project::{Project, ProjectError};

fn load_ok(bytes: &[u8], location: &str) -> (Project, Vec<String>) {
    match Project::load_from_slice(bytes, location) {
        Ok(pair) => pair,
        Err(e) => panic!("expected a successful load, got {:?}", e),
    }
}

fn load_err(bytes: &[u8], location: &str) -> ProjectError {
    match Project::load_from_slice(bytes, location) {
        Ok(_) => panic!("expected the load to fail"),
        Err(e) => e,
    }
}

#[test]
fn minimal_document_loads() {
    let doc = br#"{"name":"Demo","tree":{"$className":"Folder"}}"#;
    let (project, diagnostics) = load_ok(doc, "demo/default.project.json");
    assert_eq!(project.name, "Demo");
    assert_eq!(project.tree.class_name, Some("Folder".to_string()));
    assert!(project.tree.children.is_empty());
    assert!(project.tree.properties.is_empty());
    assert_eq!(project.tree.ignore_unknown_instances, None);
    assert!(project.tree.effective_ignore_unknown_instances());
    assert_eq!(project.tree.path, None);
    assert_eq!(project.serve_port, None);
    assert_eq!(project.serve_place_ids, None);
    assert_eq!(project.file_location, "demo/default.project.json");
    assert!(diagnostics.is_empty());
}

#[test]
fn unknown_top_level_key_is_rejected() {
    let doc = br#"{"name":"Demo","tree":{"$className":"Folder"},"foo":1}"#;
    let err = load_err(doc, "p.project.json");
    match err {
        ProjectError::Parse { path, .. } => assert_eq!(path, "p.project.json"),
        other => panic!("expected a parse failure, got {:?}", other),
    }
}

#[test]
fn malformed_json_is_rejected() {
    let err = load_err(b"{not json", "p.project.json");
    assert!(matches!(err, ProjectError::Parse { .. }));
}

#[test]
fn missing_name_is_rejected() {
    let err = load_err(br#"{"tree":{"$className":"Folder"}}"#, "p.project.json");
    assert!(matches!(err, ProjectError::Parse { .. }));
}

#[test]
fn missing_tree_is_rejected() {
    let err = load_err(br#"{"name":"Demo"}"#, "p.project.json");
    assert!(matches!(err, ProjectError::Parse { .. }));
}

#[test]
fn name_must_be_a_string() {
    let err = load_err(br#"{"name":5,"tree":{"$className":"Folder"}}"#, "p.project.json");
    assert!(matches!(err, ProjectError::Parse { .. }));
}

#[test]
fn tree_must_be_an_object() {
    let err = load_err(br#"{"name":"Demo","tree":5}"#, "p.project.json");
    assert!(matches!(err, ProjectError::Parse { .. }));
}

#[test]
fn class_name_must_be_a_string() {
    let err = load_err(br#"{"name":"Demo","tree":{"$className":5}}"#, "p.project.json");
    assert!(matches!(err, ProjectError::Parse { .. }));
}

#[test]
fn path_must_be_a_string() {
    let err = load_err(br#"{"name":"Demo","tree":{"$path":5}}"#, "p.project.json");
    assert!(matches!(err, ProjectError::Parse { .. }));
}

#[test]
fn properties_must_be_an_object() {
    let err = load_err(br#"{"name":"Demo","tree":{"$className":"F","$properties":3}}"#, "p.project.json");
    assert!(matches!(err, ProjectError::Parse { .. }));
}

#[test]
fn ignore_unknown_instances_must_be_a_boolean() {
    let err = load_err(
        br#"{"name":"Demo","tree":{"$className":"F","$ignoreUnknownInstances":"yes"}}"#,
        "p.project.json",
    );
    assert!(matches!(err, ProjectError::Parse { .. }));
}

#[test]
fn serve_port_in_range_is_kept() {
    let doc = br#"{"name":"D","tree":{"$className":"Folder"},"servePort":8000}"#;
    let (project, _) = load_ok(doc, "p.project.json");
    assert_eq!(project.serve_port, Some(8000));
}

#[test]
fn serve_port_above_range_is_rejected() {
    let doc = br#"{"name":"D","tree":{"$className":"Folder"},"servePort":70000}"#;
    assert!(matches!(load_err(doc, "p"), ProjectError::Parse { .. }));
}

#[test]
fn serve_port_negative_is_rejected() {
    let doc = br#"{"name":"D","tree":{"$className":"Folder"},"servePort":-1}"#;
    assert!(matches!(load_err(doc, "p"), ProjectError::Parse { .. }));
}

#[test]
fn serve_port_fractional_is_rejected() {
    let doc = br#"{"name":"D","tree":{"$className":"Folder"},"servePort":1.5}"#;
    assert!(matches!(load_err(doc, "p"), ProjectError::Parse { .. }));
}

#[test]
fn serve_place_ids_are_kept() {
    let doc = br#"{"name":"D","tree":{"$className":"Folder"},"servePlaceIds":[12,34]}"#;
    let (project, _) = load_ok(doc, "p.project.json");
    assert_eq!(project.serve_place_ids, Some(vec![12, 34]));
    assert!(project.accepts_place_id(12));
    assert!(project.accepts_place_id(34));
    assert!(!project.accepts_place_id(56));
}

#[test]
fn empty_serve_place_ids_restrict_nothing() {
    let doc = br#"{"name":"D","tree":{"$className":"Folder"},"servePlaceIds":[]}"#;
    let (project, _) = load_ok(doc, "p.project.json");
    assert!(project.accepts_place_id(999));
}

#[test]
fn absent_serve_place_ids_restrict_nothing() {
    let doc = br#"{"name":"D","tree":{"$className":"Folder"}}"#;
    let (project, _) = load_ok(doc, "p.project.json");
    assert!(project.accepts_place_id(999));
}

#[test]
fn serve_place_ids_must_be_unsigned_integers() {
    let doc = br#"{"name":"D","tree":{"$className":"Folder"},"servePlaceIds":[1,"x"]}"#;
    assert!(matches!(load_err(doc, "p"), ProjectError::Parse { .. }));
    let doc = br#"{"name":"D","tree":{"$className":"Folder"},"servePlaceIds":[-4]}"#;
    assert!(matches!(load_err(doc, "p"), ProjectError::Parse { .. }));
}

#[test]
fn properties_carry_their_raw_values() {
    let doc = br#"{"name":"D","tree":{"$className":"F","$properties":{"Value":5,"Name":"hi"}}}"#;
    let (project, _) = load_ok(doc, "p.project.json");
    assert_eq!(
        project.tree.properties,
        vec![
            ("Name".to_string(), Json::Str("hi".to_string())),
            ("Value".to_string(), Json::UInt(5)),
        ]
    );
}

#[test]
fn children_come_out_in_name_order() {
    let doc = br#"{"name":"D","tree":{"$className":"F","b":{"$className":"F"},"a":{"$className":"F"}}}"#;
    let (project, _) = load_ok(doc, "p.project.json");
    let names: Vec<&str> = project.tree.children.iter().map(|c| c.0.as_str()).collect();
    assert_eq!(names, vec!["a", "b"]);
}

#[test]
fn nested_child_keys_parse_recursively() {
    let doc = br#"{"name":"D","tree":{"$className":"F","kid":{"$path":"src","deeper":{"$className":"Part"}}}}"#;
    let (project, _) = load_ok(doc, "p.project.json");
    let kid = &project.tree.children[0].1;
    assert_eq!(kid.path, Some("src".to_string()));
    assert!(!kid.effective_ignore_unknown_instances());
    let deeper = &kid.children[0].1;
    assert_eq!(deeper.class_name, Some("Part".to_string()));
}

#[test]
fn bad_nested_child_fails_the_whole_load() {
    let doc = br#"{"name":"D","tree":{"$className":"F","kid":{"deeper":17}}}"#;
    assert!(matches!(load_err(doc, "p"), ProjectError::Parse { .. }));
}

#[test]
fn reserved_child_key_three_levels_deep_is_reported() {
    let doc = br#"{"name":"D","tree":{"$className":"F","a":{"$className":"F","b":{"$className":"F","$foo":{"$className":"F"}}}}}"#;
    let (first, diagnostics) = load_ok(doc, "p.project.json");
    assert_eq!(diagnostics, vec!["$foo".to_string()]);
    let (second, _) = load_ok(doc, "p.project.json");
    let again = first.tree.validate_reserved_names();
    assert_eq!(again, diagnostics);
    assert_eq!(first, second);
}

#[test]
fn reserved_child_keys_are_reported_depth_first() {
    let doc = br#"{"name":"D","tree":{"$className":"F","$abc":{"$className":"F"},"x":{"$className":"F","$in":{"$className":"F"}}}}"#;
    let (_, diagnostics) = load_ok(doc, "p.project.json");
    assert_eq!(diagnostics, vec!["$abc".to_string(), "$in".to_string()]);
}

#[test]
fn loading_twice_gives_equal_independent_values() {
    let doc = br#"{"name":"Demo","tree":{"$className":"Folder"},"servePort":9000}"#;
    let (mut first, _) = load_ok(doc, "demo/default.project.json");
    let (second, _) = load_ok(doc, "demo/default.project.json");
    assert_eq!(first, second);
    first.name.push('!');
    assert_ne!(first, second);
    assert_eq!(second.name, "Demo");
}

#[test]
fn node_without_class_or_path_is_rejected() {
    let err = load_err(br#"{"name":"D","tree":{}}"#, "p.project.json");
    assert!(matches!(err, ProjectError::Parse { .. }));
    let nested = load_err(br#"{"name":"D","tree":{"$className":"F","kid":{}}}"#, "p.project.json");
    assert!(matches!(nested, ProjectError::Parse { .. }));
}

#[test]
fn path_alone_supplies_the_class() {
    let doc = br#"{"name":"D","tree":{"$path":"src"}}"#;
    let (project, _) = load_ok(doc, "p.project.json");
    assert_eq!(project.tree.class_name, None);
    assert_eq!(project.tree.path, Some("src".to_string()));
}
