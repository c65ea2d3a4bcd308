//! The YAML reader that decodes a header's interior, and what the library
//! takes for granted of it.

use vstd::prelude::*;

verus! {

/// What a YAML value holds, read through any tags that wrap it. A table maps
/// the string keys of a mapping to the values stored under them.
pub enum YamlNode {
    /// A null.
    Null,
    /// A string.
    Text(Seq<char>),
    /// An integer that is not negative and fits in 64 bits.
    Unsigned(u64),
    /// A mapping, as far as its keys are strings.
    Table(Map<Seq<char>, YamlNode>),
    /// Anything else: a boolean, another number, a sequence.
    Other,
}

/// `serde_yaml::Value`, a YAML value of any kind. Nothing of its inside is
/// known here but what `yaml_node` says of it.
#[verifier::external_type_specification]
#[verifier::external_body]
pub struct ExYamlValue(serde_yaml::Value);

/// `serde_yaml::Error`, the error of a text that does not read as YAML.
/// Nothing of its inside is known here but the message that it displays.
#[verifier::external_type_specification]
#[verifier::external_body]
pub struct ExYamlError(serde_yaml::Error);

/// What the value `v` holds.
pub uninterp spec fn yaml_node(v: serde_yaml::Value) -> YamlNode;

/// The message that the error `e` displays.
pub uninterp spec fn yaml_error_text(e: serde_yaml::Error) -> Seq<char>;

/// What reading `text` as one YAML document gives: what the document holds,
/// or the message of the error that the reader reports.
pub uninterp spec fn yaml_document(text: Seq<char>) -> Result<YamlNode, Seq<char>>;

/// `serde_yaml::from_str` at `serde_yaml::Value`. The outcome depends on the
/// text alone.
#[verifier::external_body]
pub(crate) fn read_document(text: &str) -> (r: Result<serde_yaml::Value, serde_yaml::Error>)
    ensures
        match r {
            Ok(v) => yaml_document(text@) == Ok::<YamlNode, Seq<char>>(yaml_node(v)),
            Err(e) => yaml_document(text@) == Err::<YamlNode, Seq<char>>(yaml_error_text(e)),
        },
{
    serde_yaml::from_str::<serde_yaml::Value>(text)
}

/// `ToString::to_string` on a `serde_yaml::Error`: the text that the error
/// displays.
#[verifier::external_body]
pub(crate) fn error_message(e: &serde_yaml::Error) -> (r: String)
    ensures
        r@ == yaml_error_text(*e),
{
    e.to_string()
}

/// `serde_yaml::Value::get` with a string index: the value stored under `key`
/// where `v` is a mapping that has this key, and nothing otherwise.
#[verifier::external_body]
pub(crate) fn member<'a>(v: &'a serde_yaml::Value, key: &str) -> (r: Option<&'a serde_yaml::Value>)
    ensures
        match r {
            Some(m) => yaml_node(*v) matches YamlNode::Table(t) && t.contains_key(key@)
                && t[key@] == yaml_node(*m),
            None => !(yaml_node(*v) matches YamlNode::Table(t) && t.contains_key(key@)),
        },
{
    v.get(key)
}

/// `serde_yaml::Value::is_null`: whether the value is a YAML null.
pub assume_specification[ serde_yaml::Value::is_null ](v: &serde_yaml::Value) -> (r: bool)
    ensures
        r == (yaml_node(*v) is Null),
;

/// `serde_yaml::Value::as_str`: the text of a YAML string, and nothing for
/// any other value.
pub assume_specification<'a>[ serde_yaml::Value::as_str ](v: &'a serde_yaml::Value) -> (r: Option<
    &'a str,
>)
    ensures
        match r {
            Some(s) => yaml_node(*v) == YamlNode::Text(s@),
            None => !(yaml_node(*v) is Text),
        },
;

/// `serde_yaml::Value::as_u64`: the number where the value is an integer that
/// is not negative and fits in 64 bits, and nothing for any other value.
pub assume_specification[ serde_yaml::Value::as_u64 ](v: &serde_yaml::Value) -> (r: Option<u64>)
    ensures
        match r {
            Some(n) => yaml_node(*v) == YamlNode::Unsigned(n),
            None => !(yaml_node(*v) is Unsigned),
        },
;

} // verus!
