use vstd::prelude::*;
use crate::doc::{Node, field, lookup, str_field, get_field, get_str_field, table_get};
use crate::error::Error;

verus! {

/// The version specification that one `dependencies` entry declares: the
/// string itself, or the `version` string of a table (empty when the table
/// has none). Nothing for any other shape.
pub open spec fn entry_version(v: Node) -> Option<Seq<char>> {
    match v {
        Node::Str(s) => Some(s@),
        Node::Table(t) => match lookup(t@, "version"@) {
            None => Some(Seq::empty()),
            Some(Node::Str(s)) => Some(s@),
            Some(_) => None,
        },
        _ => None,
    }
}

/// One `(name, version_spec)` pair per entry, in the entries' order; nothing
/// when some entry has neither shape.
pub open spec fn dep_pairs(entries: Seq<(String, Node)>) -> Option<Seq<(Seq<char>, Seq<char>)>> {
    if forall|i: int| 0 <= i < entries.len() ==> (#[trigger] entry_version(entries[i].1)) is Some {
        Some(Seq::new(entries.len(), |i: int| (entries[i].0@, entry_version(entries[i].1)->0)))
    } else {
        None
    }
}

/// The declared dependencies of a manifest, or nothing when it has no
/// `dependencies` table or an entry of it is malformed.
pub open spec fn manifest_deps(doc: Node) -> Option<Seq<(Seq<char>, Seq<char>)>> {
    match field(doc, "dependencies"@) {
        Some(Node::Table(d)) => dep_pairs(d@),
        _ => None,
    }
}

/// The `package.name` of a manifest.
pub open spec fn manifest_package_name(doc: Node) -> Option<Seq<char>> {
    match field(doc, "package"@) {
        Some(p) => str_field(p, "name"@),
        None => None,
    }
}

pub open spec fn pairs_view(v: Seq<(String, String)>) -> Seq<(Seq<char>, Seq<char>)> {
    v.map_values(|p: (String, String)| (p.0@, p.1@))
}

/// Reads the version specification of one `dependencies` entry.
fn entry_version_of(v: &Node) -> (r: Option<String>)
    ensures
        match r {
            Some(s) => entry_version(*v) == Some(s@),
            None => entry_version(*v) is None,
        },
{
    match v {
        Node::Str(s) => Some(s.clone()),
        Node::Table(t) => match table_get(t, "version") {
            None => Some(String::new()),
            Some(Node::Str(s)) => Some(s.clone()),
            Some(_) => None,
        },
        _ => None,
    }
}

/// The declared dependencies of a manifest as `(name, version_spec)` pairs,
/// one per entry of its `dependencies` table and in the order written.
pub fn manifest_dependencies(doc: &Node) -> (r: Result<Vec<(String, String)>, Error>)
    ensures
        match manifest_deps(*doc) {
            Some(p) => r is Ok && pairs_view(r->Ok_0@) == p,
            None => r is Err && r->Err_0 == Error::ManifestFormat,
        },
{
    let deps = match get_field(doc, "dependencies") {
        Some(Node::Table(d)) => d,
        _ => return Err(Error::ManifestFormat),
    };
    let mut out: Vec<(String, String)> = Vec::new();
    let mut i: usize = 0;
    while i < deps.len()
        invariant
            field(*doc, "dependencies"@) == Some(Node::Table(*deps)),
            i <= deps@.len(),
            out@.len() == i,
            forall|j: int| 0 <= j < i ==> (#[trigger] entry_version(deps@[j].1)) is Some,
            forall|j: int| 0 <= j < i ==> (#[trigger] pairs_view(out@)[j]) == (deps@[j].0@, entry_version(deps@[j].1)->0),
        decreases deps.len() - i,
    {
        match entry_version_of(&deps[i].1) {
            Some(v) => {
                let ghost before = out@;
                out.push((deps[i].0.clone(), v));
                proof {
                    assert(before =~= out@.drop_last());
                    assert forall|j: int| 0 <= j < i + 1 implies (#[trigger] pairs_view(out@)[j]) == (deps@[j].0@, entry_version(deps@[j].1)->0) by {
                        assert(pairs_view(out@)[j] == (out@[j].0@, out@[j].1@));
                        if j < i {
                            assert(out@[j] == before[j]);
                            assert(pairs_view(before)[j] == (before[j].0@, before[j].1@));
                        }
                    }
                }
            },
            None => {
                assert(!(entry_version(deps@[i as int].1) is Some));
                return Err(Error::ManifestFormat);
            },
        }
        i = i + 1;
    }
    assert(pairs_view(out@) =~= Seq::new(deps@.len(), |i: int| (deps@[i].0@, entry_version(deps@[i].1)->0)));
    Ok(out)
}

/// The `package.name` of a manifest.
pub fn package_name(doc: &Node) -> (r: Result<String, Error>)
    ensures
        match manifest_package_name(*doc) {
            Some(n) => r is Ok && r->Ok_0@ == n,
            None => r is Err && r->Err_0 == Error::ManifestFormat,
        },
{
    match get_field(doc, "package") {
        Some(p) => match get_str_field(p, "name") {
            Some(n) => Ok(String::from_str(n)),
            None => Err(Error::ManifestFormat),
        },
        None => Err(Error::ManifestFormat),
    }
}

/// A well-formed `dependencies` table gives exactly one pair per entry, each
/// named after its entry and in the order the entries were written.
pub proof fn lemma_one_pair_per_entry(doc: Node, deps: Vec<(String, Node)>)
    requires
        field(doc, "dependencies"@) == Some(Node::Table(deps)),
        manifest_deps(doc) is Some,
    ensures
        manifest_deps(doc)->Some_0.len() == deps@.len(),
        forall|i: int| 0 <= i < deps@.len() ==> (#[trigger] manifest_deps(doc)->Some_0[i]).0 == deps@[i].0@,
{
}

/// An entry written as a plain string gives its name and exactly that string.
pub proof fn lemma_scalar_entry(doc: Node, deps: Vec<(String, Node)>, i: int, s: String)
    requires
        field(doc, "dependencies"@) == Some(Node::Table(deps)),
        manifest_deps(doc) is Some,
        0 <= i < deps@.len(),
        deps@[i].1 == Node::Str(s),
    ensures
        manifest_deps(doc)->Some_0[i] == (deps@[i].0@, s@),
{
}

/// An entry written as a table without a `version` key gives the empty
/// version specification.
pub proof fn lemma_table_without_version(doc: Node, deps: Vec<(String, Node)>, i: int, t: Vec<(String, Node)>)
    requires
        field(doc, "dependencies"@) == Some(Node::Table(deps)),
        manifest_deps(doc) is Some,
        0 <= i < deps@.len(),
        deps@[i].1 == Node::Table(t),
        lookup(t@, "version"@) is None,
    ensures
        manifest_deps(doc)->Some_0[i].1 == Seq::<char>::empty(),
{
    assert(entry_version(deps@[i].1) is Some);
}

} // verus!
