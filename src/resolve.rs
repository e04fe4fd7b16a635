use vstd::prelude::*;
use crate::doc::Node;
use crate::error::Error;
use crate::ident::PackageId;
use crate::lock::ids_view;
use crate::manifest::{manifest_deps, manifest_dependencies, pairs_view};
use crate::semver::{is_semver, is_semver_text};
use crate::text::{same_text, starts_with};

verus! {

/// The version of the first metadata entry, in the metadata's own order, that
/// is named `name` and whose version starts with `prefix`.
pub open spec fn first_match(meta: Seq<PackageId>, name: Seq<char>, prefix: Seq<char>) -> Option<Seq<char>>
    decreases meta.len(),
{
    if meta.len() == 0 {
        None
    } else if meta[0].name@ == name && prefix.is_prefix_of(meta[0].version@) {
        Some(meta[0].version@)
    } else {
        first_match(meta.drop_first(), name, prefix)
    }
}

/// The exact version that a version specification stands for: itself when it
/// is a semantic version, else the first prefix match in the metadata.
pub open spec fn resolved_version(name: Seq<char>, spec: Seq<char>, meta: Seq<PackageId>) -> Result<Seq<char>, Error> {
    if is_semver(spec) {
        Ok(spec)
    } else {
        match first_match(meta, name, spec) {
            Some(v) => Ok(v),
            None => Err(Error::VersionResolution),
        }
    }
}

/// Each `(name, spec)` pair resolved to `(name, version)`, in order; the
/// error of the first pair that fails.
pub open spec fn resolve_pairs(pairs: Seq<(Seq<char>, Seq<char>)>, meta: Seq<PackageId>) -> Result<Seq<(Seq<char>, Seq<char>)>, Error>
    decreases pairs.len(),
{
    if pairs.len() == 0 {
        Ok(Seq::empty())
    } else {
        match resolve_pairs(pairs.drop_last(), meta) {
            Err(e) => Err(e),
            Ok(p) => match resolved_version(pairs.last().0, pairs.last().1, meta) {
                Ok(v) => Ok(p.push((pairs.last().0, v))),
                Err(e) => Err(e),
            },
        }
    }
}

/// The exact identifiers of a manifest's declared dependencies.
pub open spec fn manifest_ids(doc: Node, meta: Seq<PackageId>) -> Result<Seq<(Seq<char>, Seq<char>)>, Error> {
    match manifest_deps(doc) {
        None => Err(Error::ManifestFormat),
        Some(p) => resolve_pairs(p, meta),
    }
}

proof fn lemma_first_match_skip(meta: Seq<PackageId>, name: Seq<char>, prefix: Seq<char>, i: int)
    requires
        0 <= i <= meta.len(),
        forall|j: int| 0 <= j < i ==> !((#[trigger] meta[j]).name@ == name && prefix.is_prefix_of(meta[j].version@)),
    ensures
        first_match(meta, name, prefix) == first_match(meta.subrange(i, meta.len() as int), name, prefix),
    decreases i,
{
    if i > 0 {
        let rest = meta.drop_first();
        assert forall|j: int| 0 <= j < i - 1 implies !((#[trigger] rest[j]).name@ == name && prefix.is_prefix_of(rest[j].version@)) by {
            assert(rest[j] == meta[j + 1]);
        }
        lemma_first_match_skip(rest, name, prefix, i - 1);
        assert(rest.subrange(i - 1, rest.len() as int) =~= meta.subrange(i, meta.len() as int));
    } else {
        assert(meta.subrange(0, meta.len() as int) =~= meta);
    }
}

proof fn lemma_resolve_pairs_err(pairs: Seq<(Seq<char>, Seq<char>)>, meta: Seq<PackageId>, k: int)
    requires
        0 <= k <= pairs.len(),
        resolve_pairs(pairs.subrange(0, k), meta) is Err,
    ensures
        resolve_pairs(pairs, meta) == resolve_pairs(pairs.subrange(0, k), meta),
    decreases pairs.len() - k,
{
    if k == pairs.len() {
        assert(pairs.subrange(0, k) =~= pairs);
    } else {
        assert(pairs.subrange(0, k + 1).drop_last() =~= pairs.subrange(0, k));
        lemma_resolve_pairs_err(pairs, meta, k + 1);
    }
}

/// Resolves the version specification `wanted` of package `name` to an exact
/// version: `wanted` itself when it is a semantic version; otherwise the version
/// of the first metadata entry named `name` whose version starts with `wanted`
/// (an empty `wanted` matches any version).
pub fn resolve_version(name: &str, wanted: &str, metadata: &Vec<PackageId>) -> (r: Result<String, Error>)
    ensures
        match resolved_version(name@, wanted@, metadata@) {
            Ok(v) => r is Ok && r->Ok_0@ == v,
            Err(e) => r is Err && r->Err_0 == e,
        },
{
    if is_semver_text(wanted) {
        return Ok(String::from_str(wanted));
    }
    let mut i: usize = 0;
    while i < metadata.len()
        invariant
            !is_semver(wanted@),
            i <= metadata@.len(),
            forall|j: int| 0 <= j < i ==> !((#[trigger] metadata@[j]).name@ == name@ && wanted@.is_prefix_of(metadata@[j].version@)),
        decreases metadata.len() - i,
    {
        let e = &metadata[i];
        if same_text(e.name.as_str(), name) && starts_with(e.version.as_str(), wanted) {
            proof {
                lemma_first_match_skip(metadata@, name@, wanted@, i as int);
                let rest = metadata@.subrange(i as int, metadata@.len() as int);
                assert(rest[0] == metadata@[i as int]);
                assert(wanted@.is_prefix_of(rest[0].version@));
                assert(first_match(rest, name@, wanted@) == Some(rest[0].version@));
            }
            return Ok(String::from_str(e.version.as_str()));
        }
        i = i + 1;
    }
    proof { lemma_first_match_skip(metadata@, name@, wanted@, i as int); }
    Err(Error::VersionResolution)
}

/// The exact identifiers of a manifest's declared dependencies, in the order
/// written, each version resolved against `metadata`.
pub fn resolve_manifest(doc: &Node, metadata: &Vec<PackageId>) -> (r: Result<Vec<PackageId>, Error>)
    ensures
        match manifest_ids(*doc, metadata@) {
            Ok(p) => r is Ok && ids_view(r->Ok_0@) == p,
            Err(e) => r is Err && r->Err_0 == e,
        },
{
    let deps = match manifest_dependencies(doc) {
        Ok(d) => d,
        Err(e) => return Err(e),
    };
    let ghost pairs = pairs_view(deps@);
    let mut out: Vec<PackageId> = Vec::new();
    let mut i: usize = 0;
    assert(pairs.subrange(0, 0) =~= Seq::<(Seq<char>, Seq<char>)>::empty());
    assert(ids_view(out@) =~= Seq::empty());
    while i < deps.len()
        invariant
            manifest_deps(*doc) == Some(pairs),
            pairs == pairs_view(deps@),
            i <= deps@.len(),
            resolve_pairs(pairs.subrange(0, i as int), metadata@) == Ok::<Seq<(Seq<char>, Seq<char>)>, Error>(ids_view(out@)),
        decreases deps.len() - i,
    {
        let name = deps[i].0.as_str();
        let res = resolve_version(name, deps[i].1.as_str(), metadata);
        proof {
            assert(pairs.subrange(0, i + 1).drop_last() =~= pairs.subrange(0, i as int));
            assert(pairs.subrange(0, i + 1).last() == pairs[i as int]);
            assert(pairs[i as int] == (deps@[i as int].0@, deps@[i as int].1@));
        }
        match res {
            Ok(v) => {
                let ghost before = out@;
                out.push(PackageId { name: deps[i].0.clone(), version: v });
                assert(out@.drop_last() =~= before);
                assert(ids_view(out@) =~= ids_view(before).push((out@.last().name@, out@.last().version@)));
            },
            Err(e) => {
                proof {
                    let pre = pairs.subrange(0, i + 1);
                    assert(resolve_pairs(pre, metadata@) == Err::<Seq<(Seq<char>, Seq<char>)>, Error>(e));
                    lemma_resolve_pairs_err(pairs, metadata@, i + 1);
                }
                return Err(e);
            },
        }
        i = i + 1;
    }
    assert(pairs.subrange(0, i as int) =~= pairs);
    Ok(out)
}

/// A version specification that is already a semantic version resolves to
/// itself, whatever the metadata holds.
pub proof fn lemma_semver_kept(name: Seq<char>, wanted: Seq<char>, meta: Seq<PackageId>)
    requires
        is_semver(wanted),
    ensures
        resolved_version(name, wanted, meta) == Ok::<Seq<char>, Error>(wanted),
{
}

/// A version specification that is not a semantic version fails to resolve
/// when no metadata entry carries the package's name.
pub proof fn lemma_unknown_name_fails(name: Seq<char>, wanted: Seq<char>, meta: Seq<PackageId>)
    requires
        !is_semver(wanted),
        forall|j: int| 0 <= j < meta.len() ==> (#[trigger] meta[j]).name@ != name,
    ensures
        resolved_version(name, wanted, meta) == Err::<Seq<char>, Error>(Error::VersionResolution),
{
    lemma_first_match_skip(meta, name, wanted, meta.len() as int);
    assert(meta.subrange(meta.len() as int, meta.len() as int).len() == 0);
}

} // verus!
