//! A mirror of parsed YAML documents as plain values.
//!
//! The configuration file is parsed by serde_yaml; its value tree is
//! mirrored into the `Yaml` enum so that verified code can walk it.
//! Scalars the configuration never uses (numbers, tagged values) are
//! carried as `Yaml::Other`.

use vstd::prelude::*;

verus! {

/// A YAML document as plain values.
#[derive(Debug, PartialEq)]
pub enum Yaml {
    Null,
    Bool(bool),
    Str(String),
    List(Vec<Yaml>),
    Mapping(Vec<(Yaml, Yaml)>),
    Other,
}

#[verifier::external_type_specification]
#[verifier::external_body]
pub struct ExYamlValue(serde_yaml::Value);

/// What parsing YAML text yields once mirrored: the document, or the
/// parser's error message.  The parser's result is a function of the text
/// alone, so the outcome can bear a name.
pub uninterp spec fn yaml_parse_of(s: Seq<char>) -> Result<Yaml, Seq<char>>;

/// What rendering a mirrored document as YAML text yields: the text, or
/// the serializer's error message.  The serializer's result is a function
/// of the document alone, so the outcome can bear a name.
pub uninterp spec fn yaml_render_of(y: Yaml) -> Result<Seq<char>, Seq<char>>;

/// Relies on serde_yaml::from_str: parses YAML text into a value tree,
/// mirrored into `Yaml` by `yaml_of_value`; a syntax error becomes its
/// message.  The whole outcome bears the name `yaml_parse_of`.
#[verifier::external_body]
pub(crate) fn parse_yaml(s: &str) -> (r: Result<Yaml, String>)
    ensures
        match r {
            Ok(y) => yaml_parse_of(s@) == Ok::<Yaml, Seq<char>>(y),
            Err(m) => yaml_parse_of(s@) == Err::<Yaml, Seq<char>>(m@),
        },
{
    match serde_yaml::from_str::<serde_yaml::Value>(s) {
        Ok(v) => Ok(yaml_of_value(&v)),
        Err(e) => Err(e.to_string()),
    }
}

/// Relies on serde_yaml::to_string: renders a mirrored document (taken
/// back to a value tree by `value_of_yaml`) as YAML text; a serializer
/// error becomes its message.  The whole outcome bears the name
/// `yaml_render_of`.
#[verifier::external_body]
pub(crate) fn render_yaml(y: &Yaml) -> (r: Result<String, String>)
    ensures
        match r {
            Ok(s) => yaml_render_of(*y) == Ok::<Seq<char>, Seq<char>>(s@),
            Err(m) => yaml_render_of(*y) == Err::<Seq<char>, Seq<char>>(m@),
        },
{
    match serde_yaml::to_string(&value_of_yaml(y)) {
        Ok(s) => Ok(s),
        Err(e) => Err(e.to_string()),
    }
}

/// Relies on serde_yaml::Value: each variant is mirrored into `Yaml`, one
/// arm per variant, keeping the document order of sequences and mappings;
/// numbers and tagged values become `Yaml::Other`.  This is the mirror
/// step of `parse_yaml`.
#[verifier::external_body]
pub(crate) fn yaml_of_value(v: &serde_yaml::Value) -> Yaml {
    match v {
        serde_yaml::Value::Null => Yaml::Null,
        serde_yaml::Value::Bool(b) => Yaml::Bool(*b),
        serde_yaml::Value::Number(_) => Yaml::Other,
        serde_yaml::Value::String(s) => Yaml::Str(s.clone()),
        serde_yaml::Value::Sequence(xs) => Yaml::List(xs.iter().map(yaml_of_value).collect()),
        serde_yaml::Value::Mapping(m) => Yaml::Mapping(
            m.iter().map(|(k, w)| (yaml_of_value(k), yaml_of_value(w))).collect(),
        ),
        serde_yaml::Value::Tagged(_) => Yaml::Other,
    }
}

/// Relies on serde_yaml::Value: the inverse mirror, one arm per variant,
/// keeping order; `Yaml::Other` (which the library never emits) falls back
/// to null.  This is the mirror step of `render_yaml`.
#[verifier::external_body]
pub(crate) fn value_of_yaml(y: &Yaml) -> serde_yaml::Value {
    match y {
        Yaml::Null => serde_yaml::Value::Null,
        Yaml::Bool(b) => serde_yaml::Value::Bool(*b),
        Yaml::Str(s) => serde_yaml::Value::String(s.clone()),
        Yaml::List(xs) => serde_yaml::Value::Sequence(xs.iter().map(value_of_yaml).collect()),
        Yaml::Mapping(m) => serde_yaml::Value::Mapping(
            m.iter().map(|(k, w)| (value_of_yaml(k), value_of_yaml(w))).collect(),
        ),
        Yaml::Other => serde_yaml::Value::Null,
    }
}

} // verus!
