//! Resolving a requested project name, and the decisions the tool makes.
//!
//! The caller looks the expanded path up on the filesystem and reports;
//! everything decided here — which project is taken, how its path is
//! expanded, what is listed, which exit status applies — is stated in
//! contracts.

use vstd::prelude::*;

verus! {

use crate::config::Config;
use crate::expand::expand_spec;
use crate::expand::expand_path;
use crate::expand::opt_view;

/// What resolving a project name yields.
#[derive(Debug, PartialEq)]
pub enum Resolution {
    /// The name is known; the expanded path of its first entry.
    Found { path: String },
    /// The name is known but its entry list is empty.
    NoPath,
    /// The name is unknown; the known project names, in order.
    NotFound { available: Vec<String> },
}

/// The entry list of the first project with this name, if any.
pub open spec fn lookup_model(m: Seq<(Seq<char>, Seq<Seq<char>>)>, name: Seq<char>) -> Option<
    Seq<Seq<char>>,
>
    decreases m.len(),
{
    if m.len() == 0 {
        None
    } else if m[0].0 == name {
        Some(m[0].1)
    } else {
        lookup_model(m.skip(1), name)
    }
}

proof fn lemma_lookup_skip(m: Seq<(Seq<char>, Seq<Seq<char>>)>, name: Seq<char>, i: int)
    requires
        0 <= i <= m.len(),
        forall|j: int| 0 <= j < i ==> (#[trigger] m[j]).0 != name,
    ensures
        lookup_model(m, name) == lookup_model(m.skip(i), name),
    decreases i,
{
    if i > 0 {
        lemma_lookup_skip(m.skip(1), name, i - 1);
        assert(m.skip(1).skip(i - 1) =~= m.skip(i));
    } else {
        assert(m.skip(0) =~= m);
    }
}

/// The known project names, in document order.
pub fn project_names(c: &Config) -> (r: Vec<String>)
    ensures
        r@.len() == c.model().len(),
        forall|i: int| 0 <= i < r@.len() ==> (#[trigger] r@[i])@ == c.model()[i].0,
{
    let n = c.projects.len();
    let mut r: Vec<String> = Vec::new();
    let mut i: usize = 0;
    while i < n
        invariant
            n == c.projects@.len(),
            i <= n,
            r@.len() == i,
            forall|j: int| 0 <= j < i ==> (#[trigger] r@[j])@ == c.model()[j].0,
        decreases n - i,
    {
        r.push(c.projects[i].0.clone());
        i += 1;
    }
    r
}

/// Resolves `name` against the configuration: the expanded first path of
/// the first project with that name; or the fact that its entry list is
/// empty; or, for an unknown name, the names available for listing.
pub fn resolve_project(c: &Config, name: &str, home: Option<&str>, env_home: Option<&str>) -> (r:
    Resolution)
    ensures
        match lookup_model(c.model(), name@) {
            Some(paths) => if paths.len() == 0 {
                r == Resolution::NoPath
            } else {
                r matches Resolution::Found { path } && path@ == expand_spec(
                    paths[0],
                    opt_view(home),
                    opt_view(env_home),
                )
            },
            None => r matches Resolution::NotFound { available } && available@.len()
                == c.model().len() && (forall|i: int|
                0 <= i < available@.len() ==> (#[trigger] available@[i])@ == c.model()[i].0),
        },
{
    let kstr = name.to_owned();
    let n = c.projects.len();
    let mut i: usize = 0;
    while i < n
        invariant
            kstr@ == name@,
            n == c.projects@.len(),
            i <= n,
            forall|j: int| 0 <= j < i ==> (#[trigger] c.model()[j]).0 != name@,
        decreases n - i,
    {
        if c.projects[i].0 == kstr {
            proof {
                lemma_lookup_skip(c.model(), name@, i as int);
                assert(c.model().skip(i as int)[0] == c.model()[i as int]);
            }
            let pcs = &c.projects[i].1;
            if pcs.len() == 0 {
                assert(c.model()[i as int].1.len() == 0);
                return Resolution::NoPath;
            }
            assert(c.model()[i as int].1[0] == c.projects@[i as int].1@[0].path@);
            let p = expand_path(c.projects[i].1[0].path.as_str(), home, env_home);
            return Resolution::Found { path: p };
        }
        i += 1;
    }
    proof {
        lemma_lookup_skip(c.model(), name@, n as int);
        assert(c.model().skip(n as int) =~= Seq::<(Seq<char>, Seq<Seq<char>>)>::empty());
    }
    Resolution::NotFound { available: project_names(c) }
}

/// What the tool does once the filesystem has been consulted.
#[derive(Debug, PartialEq)]
pub enum Outcome {
    /// Print the `CHANGE_DIR=` line and exit successfully.
    ChangeDir { path: String },
    /// Report that the expanded path does not exist.
    PathMissing { path: String },
    /// Report that the project has no path configuration.
    NoPathConfigured,
    /// Report an unknown name and list the known ones.
    NotFound { available: Vec<String> },
}

/// Turns a resolution into the final outcome; `path_exists` says whether
/// the expanded path of a `Found` resolution exists on the filesystem.
pub fn decide(r: Resolution, path_exists: bool) -> (o: Outcome)
    ensures
        match r {
            Resolution::Found { path } => if path_exists {
                o == (Outcome::ChangeDir { path })
            } else {
                o == (Outcome::PathMissing { path })
            },
            Resolution::NoPath => o == Outcome::NoPathConfigured,
            Resolution::NotFound { available } => o == (Outcome::NotFound { available }),
        },
{
    match r {
        Resolution::Found { path } => {
            if path_exists {
                Outcome::ChangeDir { path }
            } else {
                Outcome::PathMissing { path }
            }
        },
        Resolution::NoPath => Outcome::NoPathConfigured,
        Resolution::NotFound { available } => Outcome::NotFound { available },
    }
}

impl Outcome {
    /// The process exit status this outcome calls for: success only for
    /// a `CHANGE_DIR=` line.
    pub fn exit_code(&self) -> (c: i32)
        ensures
            self is ChangeDir ==> c == 0,
            !(self is ChangeDir) ==> c == 1,
    {
        match self {
            Outcome::ChangeDir { .. } => 0,
            _ => 1,
        }
    }
}

/// The single machine-readable stdout line of a successful resolution.
pub fn change_dir_line(path: &str) -> (r: String)
    ensures
        r@ == "CHANGE_DIR="@ + path@,
{
    let mut out = "CHANGE_DIR=".to_owned();
    out.append(path);
    out
}

/// Every project name with its expanded first path, in document order;
/// `None` stands for a project whose entry list is empty.
pub fn listing(c: &Config, home: Option<&str>, env_home: Option<&str>) -> (r: Vec<
    (String, Option<String>),
>)
    ensures
        r@.len() == c.model().len(),
        forall|i: int|
            0 <= i < r@.len() ==> {
                &&& (#[trigger] r@[i]).0@ == c.model()[i].0
                &&& (c.model()[i].1.len() == 0 <==> r@[i].1 is None)
                &&& (c.model()[i].1.len() > 0 ==> (match r@[i].1 {
                    Some(p) => p@ == expand_spec(
                        c.model()[i].1[0],
                        opt_view(home),
                        opt_view(env_home),
                    ),
                    None => false,
                }))
            },
{
    let n = c.projects.len();
    let mut r: Vec<(String, Option<String>)> = Vec::new();
    let mut i: usize = 0;
    while i < n
        invariant
            n == c.projects@.len(),
            i <= n,
            r@.len() == i,
            forall|j: int|
                0 <= j < i ==> {
                    &&& (#[trigger] r@[j]).0@ == c.model()[j].0
                    &&& (c.model()[j].1.len() == 0 <==> r@[j].1 is None)
                    &&& (c.model()[j].1.len() > 0 ==> (match r@[j].1 {
                        Some(p) => p@ == expand_spec(
                            c.model()[j].1[0],
                            opt_view(home),
                            opt_view(env_home),
                        ),
                        None => false,
                    }))
                },
        decreases n - i,
    {
        let pcs = &c.projects[i].1;
        let entry: Option<String> = if pcs.len() == 0 {
            None
        } else {
            assert(c.model()[i as int].1[0] == c.projects@[i as int].1@[0].path@);
            Some(expand_path(c.projects[i].1[0].path.as_str(), home, env_home))
        };
        r.push((c.projects[i].0.clone(), entry));
        i += 1;
    }
    r
}

} // verus!
