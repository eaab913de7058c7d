use indice::expand::expand_path;

#[test]
fn bare_relative_joins_home() {
    let r = expand_path("projects/foo", Some("/home/u"), None);
    assert_eq!(r, "/home/u/projects/foo");
}

#[test]
fn bare_relative_home_with_trailing_slash() {
    let r = expand_path("projects/foo", Some("/home/u/"), None);
    assert_eq!(r, "/home/u/projects/foo");
}

#[test]
fn bare_relative_without_home_is_unchanged() {
    let r = expand_path("projects/foo", None, None);
    assert_eq!(r, "projects/foo");
}

#[test]
fn tilde_alone_is_home() {
    let r = expand_path("~", Some("/home/u"), None);
    assert_eq!(r, "/home/u");
}

#[test]
fn tilde_prefix_joins_home() {
    let r = expand_path("~/bytes/labs", Some("/home/u"), None);
    assert_eq!(r, "/home/u/bytes/labs");
}

#[test]
fn tilde_without_home_is_unchanged() {
    let r = expand_path("~/bytes", None, Some("/envhome"));
    assert_eq!(r, "~/bytes");
}

#[test]
fn home_var_is_replaced() {
    let r = expand_path("$HOME/work", Some("/other"), Some("/envhome"));
    assert_eq!(r, "/envhome/work");
}

#[test]
fn home_var_every_occurrence_is_replaced() {
    let r = expand_path("$HOME/a/$HOME/b", None, Some("/h"));
    assert_eq!(r, "/h/a//h/b");
}

#[test]
fn home_var_without_env_is_unchanged() {
    let r = expand_path("$HOME/work", Some("/other"), None);
    assert_eq!(r, "$HOME/work");
}

#[test]
fn absolute_is_unchanged() {
    let r = expand_path("/tmp", Some("/home/u"), Some("/home/u"));
    assert_eq!(r, "/tmp");
}

#[test]
fn absolute_expansion_is_idempotent() {
    let once = expand_path("/var/data", Some("/home/u"), Some("/home/u"));
    let twice = expand_path(&once, Some("/home/u"), Some("/home/u"));
    assert_eq!(once, "/var/data");
    assert_eq!(twice, once);
}

#[test]
fn dot_slash_is_unchanged() {
    let r = expand_path("./rel", Some("/home/u"), None);
    assert_eq!(r, "./rel");
}

#[test]
fn dot_dot_is_unchanged() {
    let r = expand_path("../up", Some("/home/u"), None);
    assert_eq!(r, "../up");
}

#[test]
fn empty_is_unchanged() {
    let r = expand_path("", Some("/home/u"), Some("/home/u"));
    assert_eq!(r, "");
}

#[test]
fn whitespace_is_unchanged() {
    let r = expand_path("  \t", Some("/home/u"), Some("/home/u"));
    assert_eq!(r, "  \t");
}
