use vstd::prelude::*;
use crate::text::same_text;

verus! {

/// A parsed configuration document, reduced to what resolution reads:
/// strings, arrays and tables (entries in the order they were written).
/// Every other scalar (numbers, booleans, dates) is `Other`.
#[derive(Debug)]
pub enum Node {
    Str(String),
    Array(Vec<Node>),
    Table(Vec<(String, Node)>),
    Other,
}

/// The value of the first entry whose key is `key`.
pub open spec fn lookup(entries: Seq<(String, Node)>, key: Seq<char>) -> Option<Node>
    decreases entries.len(),
{
    if entries.len() == 0 {
        None
    } else if entries[0].0@ == key {
        Some(entries[0].1)
    } else {
        lookup(entries.drop_first(), key)
    }
}

/// The entry under `key` of a table node; nothing for any other node.
pub open spec fn field(n: Node, key: Seq<char>) -> Option<Node> {
    match n {
        Node::Table(t) => lookup(t@, key),
        _ => None,
    }
}

/// The text of a string node under `key` of a table node.
pub open spec fn str_field(n: Node, key: Seq<char>) -> Option<Seq<char>> {
    match field(n, key) {
        Some(Node::Str(s)) => Some(s@),
        _ => None,
    }
}

proof fn lemma_lookup_skip(entries: Seq<(String, Node)>, key: Seq<char>, i: int)
    requires
        0 <= i <= entries.len(),
        forall|j: int| 0 <= j < i ==> entries[j].0@ != key,
    ensures
        lookup(entries, key) == lookup(entries.subrange(i, entries.len() as int), key),
    decreases i,
{
    if i > 0 {
        let rest = entries.drop_first();
        assert forall|j: int| 0 <= j < i - 1 implies rest[j].0@ != key by {
            assert(rest[j] == entries[j + 1]);
        }
        lemma_lookup_skip(rest, key, i - 1);
        assert(rest.subrange(i - 1, rest.len() as int) =~= entries.subrange(i, entries.len() as int));
    } else {
        assert(entries.subrange(0, entries.len() as int) =~= entries);
    }
}

/// Finds the first entry of a table under `key`.
pub fn table_get<'a>(entries: &'a Vec<(String, Node)>, key: &str) -> (r: Option<&'a Node>)
    ensures
        match r {
            Some(n) => lookup(entries@, key@) == Some(*n),
            None => lookup(entries@, key@) is None,
        },
{
    let mut i: usize = 0;
    while i < entries.len()
        invariant
            i <= entries@.len(),
            forall|j: int| 0 <= j < i ==> entries@[j].0@ != key@,
        decreases entries.len() - i,
    {
        if same_text(entries[i].0.as_str(), key) {
            proof {
                lemma_lookup_skip(entries@, key@, i as int);
                let rest = entries@.subrange(i as int, entries@.len() as int);
                assert(rest[0] == entries@[i as int]);
            }
            return Some(&entries[i].1);
        }
        i = i + 1;
    }
    proof { lemma_lookup_skip(entries@, key@, i as int); }
    None
}

/// Finds the entry under `key` of a table node.
pub fn get_field<'a>(n: &'a Node, key: &str) -> (r: Option<&'a Node>)
    ensures
        match r {
            Some(v) => field(*n, key@) == Some(*v),
            None => field(*n, key@) is None,
        },
{
    match n {
        Node::Table(t) => table_get(t, key),
        _ => None,
    }
}

/// Reads the string under `key` of a table node.
pub fn get_str_field<'a>(n: &'a Node, key: &str) -> (r: Option<&'a str>)
    ensures
        match r {
            Some(s) => str_field(*n, key@) == Some(s@),
            None => str_field(*n, key@) is None,
        },
{
    match get_field(n, key) {
        Some(Node::Str(s)) => Some(s.as_str()),
        _ => None,
    }
}

/// A value of toml's document tree, handed from its parser to `node_of`.
#[verifier::external_type_specification]
#[verifier::external_body]
pub struct ExTomlValue(toml::Value);

/// The document that the TOML text `text` describes, or nothing when it is
/// not valid TOML.
pub uninterp spec fn toml_tree(text: Seq<char>) -> Option<Node>;

/// Relies on toml's parser (`FromStr` for `toml::Value`, that is
/// `toml::from_str`): the document depends on the text alone; with the
/// `preserve_order` feature, table entries keep their written order.
#[verifier::external_body]
fn parse_toml(text: &str) -> (r: Option<Node>)
    ensures
        r == toml_tree(text@),
{
    match text.parse::<toml::Value>() {
        Ok(v) => Some(node_of(v)),
        Err(_) => None,
    }
}

/// Relies on the variants of `toml::Value`: strings, arrays and tables are
/// carried over as they are, every other scalar becomes `Node::Other`.
#[verifier::external_body]
fn node_of(v: toml::Value) -> Node {
    match v {
        toml::Value::String(s) => Node::Str(s),
        toml::Value::Array(a) => Node::Array(a.into_iter().map(node_of).collect()),
        toml::Value::Table(t) => Node::Table(t.into_iter().map(|(k, v)| (k, node_of(v))).collect()),
        _ => Node::Other,
    }
}

/// Parses a TOML document into the tree that resolution reads.
pub fn parse_document(text: &str) -> (r: Option<Node>)
    ensures
        r == toml_tree(text@),
{
    parse_toml(text)
}

} // verus!
