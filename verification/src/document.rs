//! Manifests as trees of keys and values. The TOML parser reads the text;
//! what this crate takes from a manifest it takes from the tree.

use crate::text::same_text;
use vstd::prelude::*;

verus! {

/// A node of a document tree: a value of a TOML document.
#[derive(Debug, PartialEq, Eq)]
pub enum Node {
    /// A string.
    Text(String),
    /// An integer.
    Integer(i64),
    /// A float, as the bits of its IEEE 754 representation.
    Float(u64),
    /// A boolean.
    Boolean(bool),
    /// A date or time, as it is written in a document.
    Datetime(String),
    /// An array of values.
    Array(Vec<Node>),
    /// A table: keys with their values.
    Table(Vec<(String, Node)>),
}

/// The value of the first entry with the key `key`, if there is one.
pub open spec fn lookup(entries: Seq<(String, Node)>, key: Seq<char>) -> Option<Node>
    decreases entries.len(),
{
    if entries.len() == 0 {
        None
    } else if entries[0].0@ == key {
        Some(entries[0].1)
    } else {
        lookup(entries.drop_first(), key)
    }
}

impl Node {
    /// What a table holds under `key`; `None` for a key that the table
    /// lacks, and for a value that is no table.
    pub open spec fn spec_get(&self, key: Seq<char>) -> Option<Node> {
        match self {
            Node::Table(entries) => lookup(entries@, key),
            _ => None,
        }
    }

    /// What a table holds under `key`; `None` for a key that the table
    /// lacks, and for a value that is no table.
    pub fn get(&self, key: &str) -> (found: Option<&Node>)
        ensures
            match found {
                Some(node) => self.spec_get(key@) == Some(*node),
                None => self.spec_get(key@) is None,
            },
    {
        match self {
            Node::Table(entries) => {
                let mut i: usize = 0;
                proof {
                    assert(entries@.skip(0) =~= entries@);
                }
                while i < entries.len()
                    invariant
                        i <= entries.len(),
                        self.spec_get(key@) == lookup(entries@.skip(i as int), key@),
                    decreases entries.len() - i,
                {
                    proof {
                        assert(entries@.skip(i as int).drop_first() =~= entries@.skip(i as int + 1));
                        assert(entries@.skip(i as int)[0] == entries@[i as int]);
                    }
                    if same_text(entries[i].0.as_str(), key) {
                        proof {
                            assert(lookup(entries@.skip(i as int), key@) == Some(entries@[i as int].1));
                        }
                        return Some(&entries[i].1);
                    }
                    i += 1;
                }
                None
            },
            _ => None,
        }
    }
}

/// The TOML parser's value type.
#[verifier::external_type_specification]
#[verifier::external_body]
pub struct ExTomlValue(toml::Value);

/// The TOML parser's error type.
#[verifier::external_type_specification]
#[verifier::external_body]
pub struct ExTomlError(toml::de::Error);

/// The tree that the TOML parser reads from a text, or `None` where it
/// rejects the text.
pub uninterp spec fn parsed_toml(text: Seq<char>) -> Option<Node>;

/// The tree that a value of the TOML parser stands for.
pub uninterp spec fn tree_of(value: toml::Value) -> Node;

/// Calls `toml::from_str` for a `toml::Value`. Taken on trust: whether
/// the parser accepts a text, and the value that it hands back, depend on
/// the text alone, so that `parsed_toml` names the outcome. Nothing is
/// claimed of which texts it accepts.
#[verifier::external_body]
fn read_toml(text: &str) -> (res: Result<toml::Value, toml::de::Error>)
    ensures
        res matches Ok(value) ==> parsed_toml(text@) == Some(tree_of(value)),
        res is Err ==> parsed_toml(text@) is None,
{
    toml::from_str::<toml::Value>(text)
}

/// Takes a `toml::Value` apart into a tree of this crate, variant by
/// variant: a float by `f64::to_bits`, a date by its `Display` form, an
/// array element by element, a table entry by entry in the order in which
/// `toml::Table` hands them out. Taken on trust: the tree depends on the
/// value alone, so that `tree_of` names it.
#[verifier::external_body]
fn tree(value: toml::Value) -> (tree: Node)
    ensures
        tree == tree_of(value),
{
    match value {
        toml::Value::String(s) => Node::Text(s),
        toml::Value::Integer(i) => Node::Integer(i),
        toml::Value::Float(x) => Node::Float(x.to_bits()),
        toml::Value::Boolean(b) => Node::Boolean(b),
        toml::Value::Datetime(d) => Node::Datetime(d.to_string()),
        toml::Value::Array(a) => Node::Array(a.into_iter().map(tree).collect()),
        toml::Value::Table(t) => Node::Table(t.into_iter().map(|(k, v)| (k, tree(v))).collect()),
    }
}

/// The message of a `toml::de::Error`, by its `Display` form. Nothing is
/// claimed of the message.
#[verifier::external_body]
fn message_of(error: &toml::de::Error) -> (message: String) {
    error.to_string()
}

/// Why a text is no manifest that this crate can build from.
#[derive(Debug, PartialEq, Eq)]
pub enum ManifestSyntaxError {
    /// The text is no TOML document. Holds the parser's message.
    Syntax(String),
    /// The document lacks a section or key that a manifest must have, or
    /// holds under a key a value of another type than the key asks for.
    /// Holds the key.
    Malformed(Key),
}

/// The keys that this crate reads in a manifest.
#[derive(Clone, Copy, Debug, PartialEq, Eq)]
pub enum Key {
    /// `workspace`
    Workspace,
    /// `workspace.members`
    Members,
    /// `package`
    Package,
    /// `package.name`
    Name,
    /// `package.metadata`
    Metadata,
    /// `package.metadata.optimizer`
    Optimizer,
    /// `package.metadata.optimizer.standard-build`
    StandardBuild,
    /// `package.metadata.optimizer.builds`
    Builds,
    /// `name` of a build
    BuildName,
    /// `features` of a build
    Features,
    /// `default-features` of a build
    DefaultFeatures,
}

/// Reads a text as a TOML document.
pub fn parse_document(text: &str) -> (res: Result<Node, ManifestSyntaxError>)
    ensures
        match res {
            Ok(document) => parsed_toml(text@) == Some(document),
            Err(error) => parsed_toml(text@) is None && error is Syntax,
        },
{
    match read_toml(text) {
        Ok(value) => Ok(tree(value)),
        Err(error) => Err(ManifestSyntaxError::Syntax(message_of(&error))),
    }
}

} // verus!
