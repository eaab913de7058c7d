use indice::config::{default_config_yaml, Config, ConfigError, ProjectConfig};

fn sample() -> Config {
    Config {
        enable_feature: false,
        projects: vec![
            (
                "foo".to_string(),
                vec![ProjectConfig { path: "/tmp".to_string() }],
            ),
            (
                "bar".to_string(),
                vec![
                    ProjectConfig { path: "~/work/bar".to_string() },
                    ProjectConfig { path: "$HOME/alt".to_string() },
                ],
            ),
        ],
    }
}

#[test]
fn load_reads_fields() {
    let text = "enable_feature: false\nprojects:\n  foo:\n  - path: /tmp\n";
    let c = Config::load(text).unwrap();
    assert_eq!(c.enable_feature, false);
    assert_eq!(c.projects.len(), 1);
    assert_eq!(c.projects[0].0, "foo");
    assert_eq!(c.projects[0].1.len(), 1);
    assert_eq!(c.projects[0].1[0].path, "/tmp");
}

#[test]
fn load_keeps_document_order() {
    let text = "projects:\n  zeta:\n  - path: /a\n  alpha:\n  - path: /b\n";
    let c = Config::load(text).unwrap();
    assert_eq!(c.projects[0].0, "zeta");
    assert_eq!(c.projects[1].0, "alpha");
}

#[test]
fn load_missing_fields_default() {
    let c = Config::load("projects: {}\n").unwrap();
    assert_eq!(c.enable_feature, true);
    assert_eq!(c.projects.len(), 0);
}

#[test]
fn load_empty_document_defaults() {
    let c = Config::load("").unwrap();
    assert_eq!(c.enable_feature, true);
    assert_eq!(c.projects.len(), 0);
}

#[test]
fn load_malformed_is_parse_error() {
    let e = Config::load("projects: [unclosed\n  - bad").unwrap_err();
    assert!(matches!(e, ConfigError::Parse(_)));
}

#[test]
fn load_non_boolean_feature_is_invalid() {
    let e = Config::load("enable_feature: 3\n").unwrap_err();
    match e {
        ConfigError::Invalid(msg) => assert_eq!(msg, "`enable_feature` must be a boolean"),
        other => panic!("expected Invalid, got {:?}", other),
    }
}

#[test]
fn load_non_mapping_projects_is_invalid() {
    let e = Config::load("projects: 7\n").unwrap_err();
    match e {
        ConfigError::Invalid(msg) => assert_eq!(msg, "`projects` must be a mapping"),
        other => panic!("expected Invalid, got {:?}", other),
    }
}

#[test]
fn load_entry_without_path_is_invalid() {
    let e = Config::load("projects:\n  foo:\n  - nope: 1\n").unwrap_err();
    match e {
        ConfigError::Invalid(msg) => assert_eq!(msg, "project entry is missing the key `path`"),
        other => panic!("expected Invalid, got {:?}", other),
    }
}

#[test]
fn load_scalar_document_is_invalid() {
    let e = Config::load("just a string\n").unwrap_err();
    match e {
        ConfigError::Invalid(msg) => assert_eq!(msg, "the configuration must be a YAML mapping"),
        other => panic!("expected Invalid, got {:?}", other),
    }
}

#[test]
fn load_duplicate_project_names_fails() {
    let text = "projects:\n  foo:\n  - path: /a\n  foo:\n  - path: /b\n";
    assert!(Config::load(text).is_err());
}

#[test]
fn yaml_round_trip_preserves_everything() {
    let c1 = sample();
    let text = c1.to_yaml().unwrap();
    let c2 = Config::load(&text).unwrap();
    assert_eq!(c1, c2);
}

#[test]
fn loaded_config_round_trips() {
    let text = "enable_feature: true\nprojects:\n  one:\n  - path: ~/a\n  two:\n  - path: /b\n  - path: /c\n";
    let c1 = Config::load(text).unwrap();
    let again = c1.to_yaml().unwrap();
    let c2 = Config::load(&again).unwrap();
    assert_eq!(c1, c2);
}

#[test]
fn default_template_loads() {
    let c = Config::load(&default_config_yaml()).unwrap();
    assert_eq!(c.enable_feature, true);
    assert_eq!(c.projects.len(), 1);
    assert_eq!(c.projects[0].0, "example");
    assert_eq!(c.projects[0].1[0].path, "~/projects/example");
}

#[test]
fn default_config_has_feature_on() {
    let c = Config::default();
    assert_eq!(c.enable_feature, true);
    assert_eq!(c.projects.len(), 0);
}

#[test]
fn error_messages_render() {
    assert_eq!(
        ConfigError::NoHome.message(),
        "Could not determine home directory"
    );
    assert_eq!(
        ConfigError::Read("gone".to_string()).message(),
        "could not read configuration file: gone"
    );
    assert_eq!(
        ConfigError::Parse("bad".to_string()).message(),
        "invalid YAML: bad"
    );
    assert_eq!(
        ConfigError::Invalid("shape".to_string()).message(),
        "invalid configuration: shape"
    );
}

#[test]
fn config_path_override_wins() {
    let r = Config::config_path(Some("/etc/alt.yml"), "/cwd", true, Some("/home/u"));
    assert_eq!(r.unwrap(), "/etc/alt.yml");
}

#[test]
fn config_path_prefers_local_file() {
    let r = Config::config_path(None, "/cwd", true, Some("/home/u"));
    assert_eq!(r.unwrap(), "/cwd/.indicerc");
}

#[test]
fn config_path_falls_back_to_home() {
    let r = Config::config_path(None, "/cwd", false, Some("/home/u"));
    assert_eq!(r.unwrap(), "/home/u/.indicerc");
}

#[test]
fn config_path_without_home_fails() {
    let r = Config::config_path(None, "/cwd", false, None);
    assert_eq!(r.unwrap_err(), ConfigError::NoHome);
}
