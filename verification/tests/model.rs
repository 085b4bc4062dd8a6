//! Tests of the model pieces: path naming, locating, defaulting, the
//! class conflict flag, and the web UI routing.

use rojo_project::json::Json;
use rojo_project::project::{PathMeta, Project, ProjectNode};
use rojo_project::web_ui::{Route, UiService};

#[test]
fn project_files_are_recognized_by_name() {
    assert!(Project::is_project_file("default.project.json"));
    assert!(Project::is_project_file("foo.project.json"));
    assert!(Project::is_project_file("a/b/c/foo.project.json"));
    assert!(Project::is_project_file("a/.project.json"));
    assert!(Project::is_project_file("foo.project.json/"));
    assert!(Project::is_project_file("a/b.project.json//"));
    assert!(!Project::is_project_file("project.json"));
    assert!(!Project::is_project_file("foo.json"));
    assert!(!Project::is_project_file("foo.json/"));
    assert!(!Project::is_project_file("/"));
    assert!(!Project::is_project_file(""));
}

#[test]
fn locate_finds_a_project_file_by_its_own_path() {
    let found = Project::locate("game/place.project.json", PathMeta::File, PathMeta::Missing);
    assert_eq!(found, Some("game/place.project.json".to_string()));
    let not_project = Project::locate("game/readme.md", PathMeta::File, PathMeta::Missing);
    assert_eq!(not_project, None);
}

#[test]
fn locate_finds_the_default_file_inside_a_directory() {
    let found = Project::locate("game", PathMeta::Dir, PathMeta::File);
    assert_eq!(found, Some("game/default.project.json".to_string()));
    let trailing = Project::locate("game/", PathMeta::Dir, PathMeta::File);
    assert_eq!(trailing, Some("game/default.project.json".to_string()));
}

#[test]
fn locate_ignores_a_directory_named_like_the_default_file() {
    let found = Project::locate("game", PathMeta::Dir, PathMeta::Dir);
    assert_eq!(found, None);
}

#[test]
fn locate_returns_nothing_for_a_missing_path() {
    assert_eq!(Project::locate("nowhere", PathMeta::Missing, PathMeta::Missing), None);
    assert_eq!(Project::locate("nowhere", PathMeta::Missing, PathMeta::File), None);
}

#[test]
fn folder_location_is_the_parent_of_the_file_location() {
    let doc = br#"{"name":"D","tree":{"$className":"Folder"}}"#;
    let (project, _) = Project::load_from_slice(doc, "a/b/default.project.json").unwrap();
    assert_eq!(project.folder_location(), "a/b");
    let (rooted, _) = Project::load_from_slice(doc, "/default.project.json").unwrap();
    assert_eq!(rooted.folder_location(), "/");
    let (bare, _) = Project::load_from_slice(doc, "default.project.json").unwrap();
    assert_eq!(bare.folder_location(), "");
}

#[test]
fn ignore_unknown_instances_defaulting_matrix() {
    let declarative = ProjectNode {
        class_name: Some("Folder".to_string()),
        children: vec![],
        properties: vec![],
        ignore_unknown_instances: None,
        path: None,
    };
    assert!(declarative.effective_ignore_unknown_instances());
    let path_bound = ProjectNode {
        path: Some("src".to_string()),
        ..declarative
    };
    assert!(!path_bound.effective_ignore_unknown_instances());
    let explicit_false = ProjectNode {
        ignore_unknown_instances: Some(false),
        path: None,
        class_name: Some("Folder".to_string()),
        children: vec![],
        properties: vec![],
    };
    assert!(!explicit_false.effective_ignore_unknown_instances());
    let explicit_true = ProjectNode {
        ignore_unknown_instances: Some(true),
        path: Some("src".to_string()),
        class_name: None,
        children: vec![],
        properties: vec![],
    };
    assert!(explicit_true.effective_ignore_unknown_instances());
}

#[test]
fn class_path_conflict_is_flagged() {
    let folder_on_path = ProjectNode {
        class_name: Some("Folder".to_string()),
        children: vec![],
        properties: vec![],
        ignore_unknown_instances: None,
        path: Some("src".to_string()),
    };
    assert!(!folder_on_path.has_class_path_conflict());
    let part_on_path = ProjectNode {
        class_name: Some("Part".to_string()),
        ..folder_on_path
    };
    assert!(part_on_path.has_class_path_conflict());
    let no_path = ProjectNode {
        class_name: Some("Part".to_string()),
        children: vec![],
        properties: vec![],
        ignore_unknown_instances: None,
        path: None,
    };
    assert!(!no_path.has_class_path_conflict());
}

#[test]
fn top_level_projection_accepts_constructed_documents() {
    let doc = Json::Obj(vec![
        ("name".to_string(), Json::Str("D".to_string())),
        ("servePort".to_string(), Json::Int(8000)),
        ("tree".to_string(), Json::Obj(vec![
            ("$className".to_string(), Json::Str("Folder".to_string())),
        ])),
    ]);
    let project = Project::from_json(&doc, "p.project.json").unwrap();
    assert_eq!(project.serve_port, Some(8000));
    let negative = Json::Obj(vec![
        ("name".to_string(), Json::Str("D".to_string())),
        ("servePort".to_string(), Json::Int(-2)),
        ("tree".to_string(), Json::Obj(vec![
            ("$className".to_string(), Json::Str("Folder".to_string())),
        ])),
    ]);
    assert!(Project::from_json(&negative, "p.project.json").is_err());
}

#[test]
fn check_compatibility_reports_reserved_names() {
    let doc = br#"{"name":"D","tree":{"$className":"F","$zz":{"$className":"F"}}}"#;
    let (project, diagnostics) = Project::load_from_slice(doc, "p.project.json").unwrap();
    assert_eq!(project.check_compatibility(), diagnostics);
    assert_eq!(diagnostics, vec!["$zz".to_string()]);
}

#[test]
fn routes_map_paths_to_handlers() {
    assert_eq!(UiService::route(true, "/"), Route::Home);
    assert_eq!(UiService::route(true, "/logo.png"), Route::Logo);
    assert_eq!(UiService::route(true, "/icon.png"), Route::Icon);
    assert_eq!(UiService::route(true, "/show-instances"), Route::ShowInstances);
    assert_eq!(UiService::route(true, "/show-imfs"), Route::ShowImfs);
    assert_eq!(UiService::route(true, "/missing"), Route::NotFound);
    assert_eq!(UiService::route(false, "/"), Route::NotFound);
}

#[test]
fn ui_service_keeps_its_session_project() {
    let doc = br#"{"name":"D","tree":{"$className":"Folder"}}"#;
    let (project, _) = Project::load_from_slice(doc, "p.project.json").unwrap();
    let service = UiService::new(Some(project));
    assert_eq!(service.project.as_ref().unwrap().name, "D");
    let empty = UiService::new(None);
    assert!(empty.project.is_none());
}

#[test]
fn cloning_preserves_the_whole_project() {
    let doc = br#"{"name":"D","tree":{"$className":"F","kid":{"$path":"src","$properties":{"Value":5}}},"servePlaceIds":[7]}"#;
    let (project, _) = Project::load_from_slice(doc, "p.project.json").unwrap();
    let copy = project.clone();
    assert_eq!(copy, project);
}
