//! The configuration: named projects with stored path strings.
//!
//! `parse_top` states, over the mirrored YAML document, exactly which
//! documents are accepted and what they mean; `Config::load` parses text
//! through serde_yaml and builds the configuration accordingly.
//! `Config::to_yaml_doc` emits a document that parses back to the same
//! configuration, which is the round-trip law.

use vstd::prelude::*;

verus! {

use crate::yaml::Yaml;
use crate::yaml::parse_yaml;
use crate::yaml::render_yaml;
use crate::yaml::yaml_parse_of;
use crate::yaml::yaml_render_of;
use crate::expand::join_path;
use crate::expand::opt_view;

/// One stored path entry of a project.
#[derive(Debug, Clone, PartialEq)]
pub struct ProjectConfig {
    pub path: String,
}

/// The in-memory configuration: the feature switch and the named projects,
/// in document order.
#[derive(Debug, Clone, PartialEq)]
pub struct Config {
    pub enable_feature: bool,
    pub projects: Vec<(String, Vec<ProjectConfig>)>,
}

/// Why loading or locating a configuration failed.
#[derive(Debug, PartialEq)]
pub enum ConfigError {
    /// The configuration file could not be read.
    Read(String),
    /// The text is not well-formed YAML.
    Parse(String),
    /// The YAML is well-formed but does not fit the configuration shape.
    Invalid(String),
    /// No home directory could be determined.
    NoHome,
}

impl ConfigError {
    /// The human-readable message for this error.
    pub open spec fn spec_message(&self) -> Seq<char> {
        match self {
            ConfigError::Read(s) => "could not read configuration file: "@ + s@,
            ConfigError::Parse(s) => "invalid YAML: "@ + s@,
            ConfigError::Invalid(s) => "invalid configuration: "@ + s@,
            ConfigError::NoHome => "Could not determine home directory"@,
        }
    }

    /// Renders the message.
    pub fn message(&self) -> (r: String)
        ensures
            r@ == self.spec_message(),
    {
        match self {
            ConfigError::Read(s) => {
                let mut m = "could not read configuration file: ".to_owned();
                m.append(s.as_str());
                m
            },
            ConfigError::Parse(s) => {
                let mut m = "invalid YAML: ".to_owned();
                m.append(s.as_str());
                m
            },
            ConfigError::Invalid(s) => {
                let mut m = "invalid configuration: ".to_owned();
                m.append(s.as_str());
                m
            },
            ConfigError::NoHome => "Could not determine home directory".to_owned(),
        }
    }
}

/// The views of a sequence of strings.
pub open spec fn string_views(v: Seq<String>) -> Seq<Seq<char>> {
    v.map_values(|s: String| s@)
}

/// Each project's name with its stored (unexpanded) path strings.
pub open spec fn projects_model(ps: Seq<(String, Vec<ProjectConfig>)>) -> Seq<
    (Seq<char>, Seq<Seq<char>>),
> {
    ps.map_values(
        |e: (String, Vec<ProjectConfig>)|
            (e.0@, e.1@.map_values(|p: ProjectConfig| p.path@)),
    )
}

/// Project names are pairwise distinct.
pub open spec fn names_distinct(m: Seq<(Seq<char>, Seq<Seq<char>>)>) -> bool {
    forall|i: int, j: int|
        0 <= i < j < m.len() ==> (#[trigger] m[i]).0 != (#[trigger] m[j]).0
}

impl Config {
    /// The project part of the configuration as plain sequences.
    pub open spec fn model(&self) -> Seq<(Seq<char>, Seq<Seq<char>>)> {
        projects_model(self.projects@)
    }

    /// Well-formed: project names are pairwise distinct.
    pub open spec fn wf(&self) -> bool {
        names_distinct(self.model())
    }
}

impl Default for Config {
    /// The default configuration: the feature enabled, no projects.
    fn default() -> (c: Config)
        ensures
            c.enable_feature == true,
            c.projects@.len() == 0,
    {
        Config { enable_feature: true, projects: Vec::new() }
    }
}

/// The string key of a mapping entry, when it has one.
pub open spec fn entry_key(e: (Yaml, Yaml)) -> Option<Seq<char>> {
    match e.0 {
        Yaml::Str(s) => Some(s@),
        _ => None,
    }
}

/// The first value under string key `k`, scanning in document order.
pub open spec fn map_get(m: Seq<(Yaml, Yaml)>, k: Seq<char>) -> Option<Yaml>
    decreases m.len(),
{
    if m.len() == 0 {
        None
    } else if entry_key(m[0]) == Some(k) {
        Some(m[0].1)
    } else {
        map_get(m.skip(1), k)
    }
}

proof fn lemma_map_get_skip(m: Seq<(Yaml, Yaml)>, k: Seq<char>, i: int)
    requires
        0 <= i <= m.len(),
        forall|j: int| 0 <= j < i ==> entry_key(#[trigger] m[j]) != Some(k),
    ensures
        map_get(m, k) == map_get(m.skip(i), k),
    decreases i,
{
    if i > 0 {
        assert(entry_key(m[0]) != Some(k));
        lemma_map_get_skip(m.skip(1), k, i - 1);
        assert(m.skip(1).skip(i - 1) =~= m.skip(i));
    } else {
        assert(m.skip(0) =~= m);
    }
}

/// The stored path of one project entry: a mapping holding a string under
/// the key `path`.
pub open spec fn parse_entry(item: Yaml) -> Result<Seq<char>, Seq<char>> {
    match item {
        Yaml::Mapping(em) => match map_get(em@, "path"@) {
            Some(v) => match v {
                Yaml::Str(p) => Ok(p@),
                _ => Err("project entry key `path` must hold a string"@),
            },
            None => Err("project entry is missing the key `path`"@),
        },
        _ => Err("each project entry must be a mapping"@),
    }
}

/// The stored paths of a project's entry list; the first error wins.
pub open spec fn parse_items(items: Seq<Yaml>) -> Result<Seq<Seq<char>>, Seq<char>>
    decreases items.len(),
{
    if items.len() == 0 {
        Ok(Seq::empty())
    } else {
        match parse_entry(items[0]) {
            Ok(p) => match parse_items(items.skip(1)) {
                Ok(rest) => Ok(seq![p] + rest),
                Err(e) => Err(e),
            },
            Err(e) => Err(e),
        }
    }
}

/// A project's value: a sequence of path entries.
pub open spec fn parse_paths(v: Yaml) -> Result<Seq<Seq<char>>, Seq<char>> {
    match v {
        Yaml::List(items) => parse_items(items@),
        _ => Err("each project must hold a sequence of path entries"@),
    }
}

/// The project mapping, entry by entry: names must be strings, a name may
/// not repeat, and each value must be a sequence of path entries.
pub open spec fn parse_projects_go(m: Seq<(Yaml, Yaml)>, seen: Seq<Seq<char>>) -> Result<
    Seq<(Seq<char>, Seq<Seq<char>>)>,
    Seq<char>,
>
    decreases m.len(),
{
    if m.len() == 0 {
        Ok(Seq::empty())
    } else {
        match entry_key(m[0]) {
            Some(name) => if seen.contains(name) {
                Err("duplicate project name"@)
            } else {
                match parse_paths(m[0].1) {
                    Ok(paths) => match parse_projects_go(m.skip(1), seen.push(name)) {
                        Ok(rest) => Ok(seq![(name, paths)] + rest),
                        Err(e) => Err(e),
                    },
                    Err(e) => Err(e),
                }
            },
            None => Err("project names must be strings"@),
        }
    }
}

/// The whole project mapping.
pub open spec fn parse_projects(m: Seq<(Yaml, Yaml)>) -> Result<
    Seq<(Seq<char>, Seq<Seq<char>>)>,
    Seq<char>,
> {
    parse_projects_go(m, Seq::empty())
}

/// The whole document: an empty (null) document gives the defaults; a
/// mapping may carry `enable_feature` (a boolean, `true` when absent) and
/// `projects` (a mapping, empty when absent); any other document is
/// refused.
pub open spec fn parse_top(y: Yaml) -> Result<(bool, Seq<(Seq<char>, Seq<Seq<char>>)>), Seq<char>> {
    match y {
        Yaml::Null => Ok((true, Seq::empty())),
        Yaml::Mapping(top) => {
            let en: Result<bool, Seq<char>> = match map_get(top@, "enable_feature"@) {
                None => Ok(true),
                Some(v) => match v {
                    Yaml::Bool(b) => Ok(b),
                    _ => Err("`enable_feature` must be a boolean"@),
                },
            };
            match en {
                Err(e) => Err(e),
                Ok(b) => match map_get(top@, "projects"@) {
                    None => Ok((b, Seq::empty())),
                    Some(v) => match v {
                        Yaml::Mapping(pm) => match parse_projects(pm@) {
                            Ok(model) => Ok((b, model)),
                            Err(e) => Err(e),
                        },
                        _ => Err("`projects` must be a mapping"@),
                    },
                },
            }
        },
        _ => Err("the configuration must be a YAML mapping"@),
    }
}

fn map_find<'a>(m: &'a Vec<(Yaml, Yaml)>, k: &str) -> (r: Option<&'a Yaml>)
    ensures
        match r {
            Some(v) => map_get(m@, k@) == Some(*v),
            None => map_get(m@, k@) is None,
        },
{
    let kstr = k.to_owned();
    let n = m.len();
    let mut i: usize = 0;
    while i < n
        invariant
            kstr@ == k@,
            n == m@.len(),
            i <= n,
            forall|j: int| 0 <= j < i ==> entry_key(#[trigger] m@[j]) != Some(k@),
        decreases n - i,
    {
        let hit: bool = match &m[i].0 {
            Yaml::Str(s) => *s == kstr,
            _ => false,
        };
        proof {
            let e = m@[i as int];
            match e.0 {
                Yaml::Str(s) => {
                    assert(entry_key(e) == Some(s@));
                },
                _ => {
                    assert(entry_key(e) is None);
                },
            }
        }
        if hit {
            proof {
                lemma_map_get_skip(m@, k@, i as int);
                assert(m@.skip(i as int)[0] == m@[i as int]);
            }
            return Some(&m[i].1);
        }
        i += 1;
    }
    proof {
        lemma_map_get_skip(m@, k@, n as int);
        assert(m@.skip(n as int) =~= Seq::<(Yaml, Yaml)>::empty());
    }
    None
}

fn contains_string(v: &Vec<String>, s: &String) -> (r: bool)
    ensures
        r == string_views(v@).contains(s@),
{
    let n = v.len();
    let mut i: usize = 0;
    while i < n
        invariant
            n == v@.len(),
            i <= n,
            forall|k: int| 0 <= k < i ==> #[trigger] v@[k]@ != s@,
        decreases n - i,
    {
        if v[i] == *s {
            assert(string_views(v@)[i as int] == s@);
            return true;
        }
        i += 1;
    }
    assert forall|k: int| 0 <= k < string_views(v@).len() implies #[trigger] string_views(v@)[k]
        != s@ by {
        assert(string_views(v@)[k] == v@[k]@);
    }
    false
}

fn paths_from_items(items: &Vec<Yaml>) -> (r: Result<Vec<ProjectConfig>, ConfigError>)
    ensures
        match r {
            Ok(pcs) => parse_items(items@) == Ok::<Seq<Seq<char>>, Seq<char>>(
                pcs@.map_values(|p: ProjectConfig| p.path@),
            ),
            Err(e) => match e {
                ConfigError::Invalid(msg) => parse_items(items@) == Err::<
                    Seq<Seq<char>>,
                    Seq<char>,
                >(msg@),
                _ => false,
            },
        },
{
    let n = items.len();
    let mut out: Vec<ProjectConfig> = Vec::new();
    let mut i: usize = 0;
    proof {
        assert(items@.skip(0) =~= items@);
        assert(out@.map_values(|p: ProjectConfig| p.path@) =~= Seq::<Seq<char>>::empty());
    }
    while i < n
        invariant
            n == items@.len(),
            i <= n,
            parse_items(items@) == (match parse_items(items@.skip(i as int)) {
                Ok(rest) => Ok::<Seq<Seq<char>>, Seq<char>>(
                    out@.map_values(|p: ProjectConfig| p.path@) + rest,
                ),
                Err(e) => Err::<Seq<Seq<char>>, Seq<char>>(e),
            }),
        decreases n - i,
    {
        let ghost pre = items@.skip(i as int);
        proof {
            assert(pre[0] == items@[i as int]);
            assert(pre.skip(1) =~= items@.skip(i as int + 1));
        }
        match &items[i] {
            Yaml::Mapping(em) => {
                match map_find(em, "path") {
                    Some(v) => match v {
                        Yaml::Str(p) => {
                            let ghost old_out = out@;
                            out.push(ProjectConfig { path: p.clone() });
                            proof {
                                assert(out@.map_values(|p: ProjectConfig| p.path@) =~= old_out
                                    .map_values(|p: ProjectConfig| p.path@) + seq![p@]);
                                assert(parse_entry(pre[0]) == Ok::<Seq<char>, Seq<char>>(p@));
                                match parse_items(items@.skip(i as int + 1)) {
                                    Ok(rest) => {
                                        assert((old_out.map_values(|p: ProjectConfig| p.path@)
                                            + seq![p@]) + rest =~= old_out.map_values(
                                            |p: ProjectConfig| p.path@,
                                        ) + (seq![p@] + rest));
                                    },
                                    Err(_) => {},
                                }
                            }
                        },
                        _ => {
                            assert(parse_entry(pre[0]) == Err::<Seq<char>, Seq<char>>(
                                "project entry key `path` must hold a string"@,
                            ));
                            return Err(
                                ConfigError::Invalid(
                                    "project entry key `path` must hold a string".to_owned(),
                                ),
                            );
                        },
                    },
                    None => {
                        assert(parse_entry(pre[0]) == Err::<Seq<char>, Seq<char>>(
                            "project entry is missing the key `path`"@,
                        ));
                        return Err(
                            ConfigError::Invalid(
                                "project entry is missing the key `path`".to_owned(),
                            ),
                        );
                    },
                }
            },
            _ => {
                assert(parse_entry(pre[0]) == Err::<Seq<char>, Seq<char>>(
                    "each project entry must be a mapping"@,
                ));
                return Err(
                    ConfigError::Invalid("each project entry must be a mapping".to_owned()),
                );
            },
        }
        i += 1;
    }
    proof {
        assert(items@.skip(n as int) =~= Seq::<Yaml>::empty());
        assert(out@.map_values(|p: ProjectConfig| p.path@) + Seq::<Seq<char>>::empty() =~= out@
            .map_values(|p: ProjectConfig| p.path@));
    }
    Ok(out)
}

fn projects_from_mapping(pm: &Vec<(Yaml, Yaml)>) -> (r: Result<
    Vec<(String, Vec<ProjectConfig>)>,
    ConfigError,
>)
    ensures
        match r {
            Ok(ps) => parse_projects(pm@) == Ok::<Seq<(Seq<char>, Seq<Seq<char>>)>, Seq<char>>(
                projects_model(ps@),
            ) && names_distinct(projects_model(ps@)),
            Err(e) => match e {
                ConfigError::Invalid(msg) => parse_projects(pm@) == Err::<
                    Seq<(Seq<char>, Seq<Seq<char>>)>,
                    Seq<char>,
                >(msg@),
                _ => false,
            },
        },
{
    let n = pm.len();
    let mut out: Vec<(String, Vec<ProjectConfig>)> = Vec::new();
    let mut seen: Vec<String> = Vec::new();
    let mut i: usize = 0;
    proof {
        assert(pm@.skip(0) =~= pm@);
        assert(string_views(seen@) =~= Seq::<Seq<char>>::empty());
        assert(projects_model(out@) =~= Seq::<(Seq<char>, Seq<Seq<char>>)>::empty());
    }
    while i < n
        invariant
            n == pm@.len(),
            i <= n,
            seen@.len() == out@.len(),
            forall|k: int| 0 <= k < out@.len() ==> #[trigger] seen@[k]@ == projects_model(
                out@,
            )[k].0,
            names_distinct(projects_model(out@)),
            parse_projects(pm@) == (match parse_projects_go(pm@.skip(i as int), string_views(seen@)) {
                Ok(rest) => Ok::<Seq<(Seq<char>, Seq<Seq<char>>)>, Seq<char>>(
                    projects_model(out@) + rest,
                ),
                Err(e) => Err::<Seq<(Seq<char>, Seq<Seq<char>>)>, Seq<char>>(e),
            }),
        decreases n - i,
    {
        let ghost pre = pm@.skip(i as int);
        proof {
            assert(pre[0] == pm@[i as int]);
            assert(pre.skip(1) =~= pm@.skip(i as int + 1));
        }
        let name: &String = match &pm[i].0 {
            Yaml::Str(s) => s,
            _ => {
                assert(entry_key(pre[0]) is None);
                return Err(ConfigError::Invalid("project names must be strings".to_owned()));
            },
        };
        assert(entry_key(pre[0]) == Some(name@));
        if contains_string(&seen, name) {
            return Err(ConfigError::Invalid("duplicate project name".to_owned()));
        }
        let pcs: Vec<ProjectConfig> = match &pm[i].1 {
            Yaml::List(items) => {
                match paths_from_items(items) {
                    Ok(pcs) => pcs,
                    Err(e) => {
                        return Err(e);
                    },
                }
            },
            _ => {
                return Err(
                    ConfigError::Invalid(
                        "each project must hold a sequence of path entries".to_owned(),
                    ),
                );
            },
        };
        let ghost old_out = out@;
        let ghost old_seen = seen@;
        out.push((name.clone(), pcs));
        seen.push(name.clone());
        proof {
            assert(projects_model(out@) =~= projects_model(old_out) + seq![
                (name@, pcs@.map_values(|p: ProjectConfig| p.path@)),
            ]);
            assert(string_views(seen@) =~= string_views(old_seen).push(name@));
            assert forall|a: int, b: int|
                0 <= a < b < projects_model(out@).len() implies (#[trigger] projects_model(
                out@,
            )[a]).0 != (#[trigger] projects_model(out@)[b]).0 by {
                if b == projects_model(out@).len() - 1 {
                    assert(projects_model(out@)[a].0 == old_seen[a]@);
                    assert(!string_views(old_seen).contains(name@));
                    assert(string_views(old_seen)[a] == old_seen[a]@);
                }
            }
            assert(projects_model(old_out) + seq![
                (name@, pcs@.map_values(|p: ProjectConfig| p.path@)),
            ] + parse_projects_go(
                pm@.skip(i as int + 1),
                string_views(seen@),
            )->Ok_0 =~= projects_model(old_out) + (seq![
                (name@, pcs@.map_values(|p: ProjectConfig| p.path@)),
            ] + parse_projects_go(pm@.skip(i as int + 1), string_views(seen@))->Ok_0));
        }
        i += 1;
    }
    proof {
        assert(pm@.skip(n as int) =~= Seq::<(Yaml, Yaml)>::empty());
        assert(projects_model(out@) + Seq::<(Seq<char>, Seq<Seq<char>>)>::empty() =~= projects_model(
            out@,
        ));
    }
    Ok(out)
}

/// Builds a configuration from a mirrored YAML document.  The result is
/// exactly what `parse_top` states: `Ok` with the parsed fields, or
/// `ConfigError::Invalid` carrying the matching message.
pub fn config_from_yaml(y: &Yaml) -> (r: Result<Config, ConfigError>)
    ensures
        match r {
            Ok(c) => parse_top(*y) == Ok::<(bool, Seq<(Seq<char>, Seq<Seq<char>>)>), Seq<char>>(
                (c.enable_feature, c.model()),
            ) && c.wf(),
            Err(e) => match e {
                ConfigError::Invalid(msg) => parse_top(*y) == Err::<
                    (bool, Seq<(Seq<char>, Seq<Seq<char>>)>),
                    Seq<char>,
                >(msg@),
                _ => false,
            },
        },
{
    match y {
        Yaml::Null => {
            let c = Config { enable_feature: true, projects: Vec::new() };
            proof {
                assert(c.model() =~= Seq::<(Seq<char>, Seq<Seq<char>>)>::empty());
            }
            Ok(c)
        },
        Yaml::Mapping(top) => {
            let mut enable: bool = true;
            match map_find(top, "enable_feature") {
                None => {},
                Some(v) => match v {
                    Yaml::Bool(b) => {
                        enable = *b;
                    },
                    _ => {
                        return Err(
                            ConfigError::Invalid("`enable_feature` must be a boolean".to_owned()),
                        );
                    },
                },
            }
            match map_find(top, "projects") {
                None => {
                    let c = Config { enable_feature: enable, projects: Vec::new() };
                    proof {
                        assert(c.model() =~= Seq::<(Seq<char>, Seq<Seq<char>>)>::empty());
                    }
                    Ok(c)
                },
                Some(v) => match v {
                    Yaml::Mapping(pm) => match projects_from_mapping(pm) {
                        Ok(ps) => Ok(Config { enable_feature: enable, projects: ps }),
                        Err(e) => Err(e),
                    },
                    _ => Err(ConfigError::Invalid("`projects` must be a mapping".to_owned())),
                },
            }
        },
        _ => Err(ConfigError::Invalid("the configuration must be a YAML mapping".to_owned())),
    }
}

fn build_items(pcs: &Vec<ProjectConfig>, idx: usize) -> (out: Vec<Yaml>)
    requires
        idx <= pcs@.len(),
    ensures
        parse_items(out@) == Ok::<Seq<Seq<char>>, Seq<char>>(
            pcs@.map_values(|p: ProjectConfig| p.path@).skip(idx as int),
        ),
    decreases pcs@.len() - idx,
{
    let ghost mapped = pcs@.map_values(|p: ProjectConfig| p.path@);
    if idx == pcs.len() {
        let out: Vec<Yaml> = Vec::new();
        proof {
            assert(out@ =~= Seq::<Yaml>::empty());
            assert(mapped.skip(idx as int) =~= Seq::<Seq<char>>::empty());
        }
        out
    } else {
        let mut em: Vec<(Yaml, Yaml)> = Vec::new();
        em.push((Yaml::Str("path".to_owned()), Yaml::Str(pcs[idx].path.clone())));
        let ghost emv = em@;
        let mut out: Vec<Yaml> = Vec::new();
        out.push(Yaml::Mapping(em));
        let mut rest = build_items(pcs, idx + 1);
        let ghost restv = rest@;
        out.append(&mut rest);
        proof {
            assert(entry_key(emv[0]) == Some("path"@));
            assert(emv.skip(1) =~= Seq::<(Yaml, Yaml)>::empty());
            assert(map_get(emv, "path"@) == Some(emv[0].1));
            assert(parse_entry(out@[0]) == Ok::<Seq<char>, Seq<char>>(pcs@[idx as int].path@));
            assert(out@.skip(1) =~= restv);
            assert(seq![pcs@[idx as int].path@] + mapped.skip(idx as int + 1) =~= mapped.skip(
                idx as int,
            ));
        }
        out
    }
}

fn build_entries(
    ps: &Vec<(String, Vec<ProjectConfig>)>,
    idx: usize,
    seen: Ghost<Seq<Seq<char>>>,
) -> (out: Vec<(Yaml, Yaml)>)
    requires
        idx <= ps@.len(),
        forall|a: int, b: int|
            idx <= a < b < ps@.len() ==> (#[trigger] projects_model(ps@)[a]).0 != (
            #[trigger] projects_model(ps@)[b]).0,
        forall|a: int|
            idx <= a < ps@.len() ==> !seen@.contains((#[trigger] projects_model(ps@)[a]).0),
    ensures
        parse_projects_go(out@, seen@) == Ok::<Seq<(Seq<char>, Seq<Seq<char>>)>, Seq<char>>(
            projects_model(ps@).skip(idx as int),
        ),
    decreases ps@.len() - idx,
{
    if idx == ps.len() {
        let out: Vec<(Yaml, Yaml)> = Vec::new();
        proof {
            assert(out@ =~= Seq::<(Yaml, Yaml)>::empty());
            assert(projects_model(ps@).skip(idx as int) =~= Seq::<
                (Seq<char>, Seq<Seq<char>>),
            >::empty());
        }
        out
    } else {
        let items = build_items(&ps[idx].1, 0);
        let ghost itemsv = items@;
        let mut out: Vec<(Yaml, Yaml)> = Vec::new();
        out.push((Yaml::Str(ps[idx].0.clone()), Yaml::List(items)));
        let ghost name = ps@[idx as int].0@;
        let ghost paths = ps@[idx as int].1@.map_values(|p: ProjectConfig| p.path@);
        proof {
            assert(paths.skip(0) =~= paths);
            assert(projects_model(ps@)[idx as int].0 == name);
            assert(!seen@.contains(name));
            assert forall|m: Seq<char>| seen@.push(name).contains(m) implies seen@.contains(m)
                || m == name by {
                let k = choose|k: int| 0 <= k < seen@.push(name).len() && seen@.push(name)[k] == m;
                if k < seen@.len() {
                    assert(seen@[k] == m);
                }
            }
            assert forall|a: int| idx + 1 <= a < ps@.len() implies !seen@.push(name).contains(
                (#[trigger] projects_model(ps@)[a]).0,
            ) by {
                assert(projects_model(ps@)[a].0 != name);
                assert(!seen@.contains(projects_model(ps@)[a].0));
            }
        }
        let mut rest = build_entries(ps, idx + 1, Ghost(seen@.push(name)));
        let ghost restv = rest@;
        out.append(&mut rest);
        proof {
            assert(entry_key(out@[0]) == Some(name));
            assert(parse_paths(out@[0].1) == parse_items(itemsv));
            assert(out@.skip(1) =~= restv);
            assert(seq![(name, paths)] + projects_model(ps@).skip(idx as int + 1)
                =~= projects_model(ps@).skip(idx as int));
        }
        out
    }
}

impl Config {
    /// Emits the configuration as a mirrored YAML document.
    ///
    /// Law (round trip): parsing the emitted document yields exactly the
    /// same feature switch and project entries, as the `ensures` states
    /// through `parse_top`.
    pub fn to_yaml_doc(&self) -> (y: Yaml)
        requires
            self.wf(),
        ensures
            parse_top(y) == Ok::<(bool, Seq<(Seq<char>, Seq<Seq<char>>)>), Seq<char>>(
                (self.enable_feature, self.model()),
            ),
    {
        let entries = build_entries(&self.projects, 0, Ghost(Seq::empty()));
        let ghost entriesv = entries@;
        let mut top: Vec<(Yaml, Yaml)> = Vec::new();
        top.push((Yaml::Str("enable_feature".to_owned()), Yaml::Bool(self.enable_feature)));
        top.push((Yaml::Str("projects".to_owned()), Yaml::Mapping(entries)));
        let y = Yaml::Mapping(top);
        proof {
            reveal_strlit("enable_feature");
            reveal_strlit("projects");
            assert("enable_feature"@.len() == 14);
            assert("projects"@.len() == 8);
            assert("enable_feature"@ != "projects"@);
            assert(entry_key(top@[0]) == Some("enable_feature"@));
            assert(map_get(top@, "enable_feature"@) == Some(top@[0].1));
            assert(top@.skip(1)[0] == top@[1]);
            assert(entry_key(top@[1]) == Some("projects"@));
            assert(map_get(top@.skip(1), "projects"@) == Some(top@[1].1));
            assert(entry_key(top@[0]) != Some("projects"@));
            assert(map_get(top@, "projects"@) == Some(top@[1].1));
            assert(self.model().skip(0) =~= self.model());
        }
        y
    }

    /// Renders the configuration as YAML text through the serializer: the
    /// result is the named rendering (`yaml_render_of`) of a document that
    /// parses back to exactly this configuration; a serializer error is
    /// reported as `Parse` with the named message of such a document.
    pub fn to_yaml(&self) -> (r: Result<String, ConfigError>)
        requires
            self.wf(),
        ensures
            match r {
                Ok(s) => exists|doc: Yaml|
                    #[trigger] yaml_render_of(doc) == Ok::<Seq<char>, Seq<char>>(s@)
                        && parse_top(doc) == Ok::<
                        (bool, Seq<(Seq<char>, Seq<Seq<char>>)>),
                        Seq<char>,
                    >((self.enable_feature, self.model())),
                Err(e) => match e {
                    ConfigError::Parse(m) => exists|doc: Yaml|
                        #[trigger] yaml_render_of(doc) == Err::<Seq<char>, Seq<char>>(m@)
                            && parse_top(doc) == Ok::<
                            (bool, Seq<(Seq<char>, Seq<Seq<char>>)>),
                            Seq<char>,
                        >((self.enable_feature, self.model())),
                    _ => false,
                },
            },
    {
        let doc = self.to_yaml_doc();
        match render_yaml(&doc) {
            Ok(s) => Ok(s),
            Err(m) => Err(ConfigError::Parse(m)),
        }
    }
}

/// Where the configuration file is looked for, given what the caller saw:
/// the explicit override when given; else `.indicerc` in the current
/// directory when such a file exists there; else `.indicerc` under the
/// home directory, whether or not it exists yet (so that a default can be
/// created there); with no home directory the lookup fails.
pub open spec fn config_path_spec(
    ov: Option<Seq<char>>,
    cwd: Seq<char>,
    local_exists: bool,
    home: Option<Seq<char>>,
) -> Result<Seq<char>, ConfigError> {
    match ov {
        Some(p) => Ok(p),
        None => if local_exists {
            Ok(join_path(cwd, ".indicerc"@))
        } else {
            match home {
                Some(h) => Ok(join_path(h, ".indicerc"@)),
                None => Err(ConfigError::NoHome),
            }
        },
    }
}

impl Config {
    /// Resolves the configuration file location; `local_exists` says
    /// whether `.indicerc` exists in the current directory `cwd`.
    pub fn config_path(
        override_path: Option<&str>,
        cwd: &str,
        local_exists: bool,
        home: Option<&str>,
    ) -> (r: Result<String, ConfigError>)
        ensures
            match r {
                Ok(p) => config_path_spec(
                    opt_view(override_path),
                    cwd@,
                    local_exists,
                    opt_view(home),
                ) == Ok::<Seq<char>, ConfigError>(p@),
                Err(e) => config_path_spec(
                    opt_view(override_path),
                    cwd@,
                    local_exists,
                    opt_view(home),
                ) == Err::<Seq<char>, ConfigError>(e),
            },
    {
        match override_path {
            Some(p) => Ok(p.to_owned()),
            None => {
                if local_exists {
                    Ok(crate::expand::join_dir(cwd, ".indicerc"))
                } else {
                    match home {
                        Some(h) => Ok(crate::expand::join_dir(h, ".indicerc")),
                        None => Err(ConfigError::NoHome),
                    }
                }
            },
        }
    }
}

/// The text of the default configuration file.
pub open spec fn default_template() -> Seq<char> {
    "# Configuration for the indice project navigator.\n#\n# enable_feature: turns the feature on or off; absent means on.\n# projects: maps a short project name to a list of path entries;\n# only the first entry of a list is used.  A path may be absolute,\n# start with ~ or $HOME, or be relative to the home directory.\nenable_feature: true\nprojects:\n  example:\n  - path: ~/projects/example\n"@
}

/// The YAML template written when no configuration file exists yet: an
/// explanatory comment block, the feature switch, and a sample project.
pub fn default_config_yaml() -> (r: String)
    ensures
        r@ == default_template(),
{
    "# Configuration for the indice project navigator.\n#\n# enable_feature: turns the feature on or off; absent means on.\n# projects: maps a short project name to a list of path entries;\n# only the first entry of a list is used.  A path may be absolute,\n# start with ~ or $HOME, or be relative to the home directory.\nenable_feature: true\nprojects:\n  example:\n  - path: ~/projects/example\n".to_owned()
}

impl Config {
    /// Parses configuration text: YAML through serde_yaml, then the shape
    /// that `parse_top` states.  The result is pinned to the named parse
    /// outcome of the text (`yaml_parse_of`): `Ok` exactly when the text
    /// parses to a document whose shape fits, with that document's parsed
    /// fields (and well-formed); `Parse` exactly the parser's message on
    /// malformed text; `Invalid` exactly `parse_top`'s message on a
    /// well-formed document of the wrong shape.
    pub fn load(text: &str) -> (r: Result<Config, ConfigError>)
        ensures
            match r {
                Ok(c) => c.wf() && (match yaml_parse_of(text@) {
                    Ok(doc) => parse_top(doc) == Ok::<
                        (bool, Seq<(Seq<char>, Seq<Seq<char>>)>),
                        Seq<char>,
                    >((c.enable_feature, c.model())),
                    Err(_) => false,
                }),
                Err(e) => match e {
                    ConfigError::Parse(m) => yaml_parse_of(text@) == Err::<Yaml, Seq<char>>(m@),
                    ConfigError::Invalid(m) => match yaml_parse_of(text@) {
                        Ok(doc) => parse_top(doc) == Err::<
                            (bool, Seq<(Seq<char>, Seq<Seq<char>>)>),
                            Seq<char>,
                        >(m@),
                        Err(_) => false,
                    },
                    _ => false,
                },
            },
    {
        match parse_yaml(text) {
            Err(m) => Err(ConfigError::Parse(m)),
            Ok(doc) => config_from_yaml(&doc),
        }
    }
}

} // verus!
