use indice::config::{Config, ProjectConfig};
use indice::resolve::{
    change_dir_line, decide, listing, project_names, resolve_project, Outcome, Resolution,
};

fn one_project(name: &str, path: &str) -> Config {
    Config {
        enable_feature: true,
        projects: vec![(
            name.to_string(),
            vec![ProjectConfig { path: path.to_string() }],
        )],
    }
}

#[test]
fn known_project_with_existing_path_changes_dir() {
    let c = one_project("foo", "/tmp");
    let r = resolve_project(&c, "foo", Some("/home/u"), Some("/home/u"));
    assert_eq!(r, Resolution::Found { path: "/tmp".to_string() });
    let o = decide(r, true);
    assert_eq!(o.exit_code(), 0);
    match o {
        Outcome::ChangeDir { path } => assert_eq!(change_dir_line(&path), "CHANGE_DIR=/tmp"),
        other => panic!("expected ChangeDir, got {:?}", other),
    }
}

#[test]
fn unknown_project_reports_not_found_and_lists() {
    let c = one_project("foo", "/tmp");
    let r = resolve_project(&c, "bar", None, None);
    match &r {
        Resolution::NotFound { available } => assert_eq!(available, &vec!["foo".to_string()]),
        other => panic!("expected NotFound, got {:?}", other),
    }
    let o = decide(r, false);
    assert_eq!(o.exit_code(), 1);
    assert!(matches!(o, Outcome::NotFound { .. }));
}

#[test]
fn missing_path_on_disk_is_reported() {
    let c = one_project("foo", "/nonexistent-xyz");
    let r = resolve_project(&c, "foo", None, None);
    assert_eq!(r, Resolution::Found { path: "/nonexistent-xyz".to_string() });
    let o = decide(r, false);
    assert_eq!(o.exit_code(), 1);
    match o {
        Outcome::PathMissing { path } => assert_eq!(path, "/nonexistent-xyz"),
        other => panic!("expected PathMissing, got {:?}", other),
    }
}

#[test]
fn empty_entry_list_is_reported() {
    let c = Config { enable_feature: true, projects: vec![("foo".to_string(), vec![])] };
    let r = resolve_project(&c, "foo", None, None);
    assert_eq!(r, Resolution::NoPath);
    let o = decide(r, false);
    assert_eq!(o, Outcome::NoPathConfigured);
    assert_eq!(o.exit_code(), 1);
}

#[test]
fn resolution_expands_stored_path() {
    let c = one_project("foo", "~/work");
    let r = resolve_project(&c, "foo", Some("/home/u"), None);
    assert_eq!(r, Resolution::Found { path: "/home/u/work".to_string() });
}

#[test]
fn first_entry_wins() {
    let c = Config {
        enable_feature: true,
        projects: vec![(
            "foo".to_string(),
            vec![
                ProjectConfig { path: "/first".to_string() },
                ProjectConfig { path: "/second".to_string() },
            ],
        )],
    };
    let r = resolve_project(&c, "foo", None, None);
    assert_eq!(r, Resolution::Found { path: "/first".to_string() });
}

#[test]
fn listing_names_two_projects_with_expanded_paths() {
    let c = Config {
        enable_feature: true,
        projects: vec![
            ("a".to_string(), vec![ProjectConfig { path: "~/one".to_string() }]),
            ("b".to_string(), vec![ProjectConfig { path: "/two".to_string() }]),
        ],
    };
    let l = listing(&c, Some("/home/u"), None);
    assert_eq!(l.len(), 2);
    assert_eq!(l[0].0, "a");
    assert_eq!(l[0].1.as_deref(), Some("/home/u/one"));
    assert_eq!(l[1].0, "b");
    assert_eq!(l[1].1.as_deref(), Some("/two"));
}

#[test]
fn listing_marks_empty_projects() {
    let c = Config { enable_feature: true, projects: vec![("e".to_string(), vec![])] };
    let l = listing(&c, None, None);
    assert_eq!(l.len(), 1);
    assert_eq!(l[0].0, "e");
    assert_eq!(l[0].1, None);
}

#[test]
fn project_names_in_order() {
    let c = Config {
        enable_feature: true,
        projects: vec![
            ("z".to_string(), vec![]),
            ("a".to_string(), vec![]),
        ],
    };
    assert_eq!(project_names(&c), vec!["z".to_string(), "a".to_string()]);
}

#[test]
fn change_dir_line_shape() {
    assert_eq!(change_dir_line("/tmp"), "CHANGE_DIR=/tmp");
    assert_eq!(change_dir_line(""), "CHANGE_DIR=");
}
