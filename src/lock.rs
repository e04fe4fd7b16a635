use vstd::prelude::*;
use crate::doc::{Node, field, str_field, get_field, get_str_field};
use crate::error::Error;
use crate::ident::PackageId;
use crate::text::{index_or_len, lemma_index_or_len, find_char};

verus! {

/// The package records of a lock graph: the `package` array of its top table.
pub open spec fn lock_records(doc: Node) -> Seq<Node> {
    match field(doc, "package"@) {
        Some(Node::Array(a)) => a@,
        _ => Seq::empty(),
    }
}

/// The first record whose `name` is `name`.
pub open spec fn find_record(recs: Seq<Node>, name: Seq<char>) -> Option<Node>
    decreases recs.len(),
{
    if recs.len() == 0 {
        None
    } else if str_field(recs[0], "name"@) == Some(name) {
        Some(recs[0])
    } else {
        find_record(recs.drop_first(), name)
    }
}

/// The package that a dependency reference designates. A reference with a
/// space is `"<name> <version>"` (anything after a second space is ignored),
/// and both must be non-empty; a bare name takes the version of its own record.
pub open spec fn reference_id(recs: Seq<Node>, r: Node) -> Result<(Seq<char>, Seq<char>), Error> {
    match r {
        Node::Str(s) => {
            let t = s@;
            let sp = index_or_len(t, ' ');
            if sp < t.len() {
                let name = t.subrange(0, sp);
                let rest = t.subrange(sp + 1, t.len() as int);
                let version = rest.subrange(0, index_or_len(rest, ' '));
                if name.len() == 0 || version.len() == 0 {
                    Err(Error::DependencyFormat)
                } else {
                    Ok((name, version))
                }
            } else if t.len() == 0 {
                Err(Error::DependencyFormat)
            } else {
                match find_record(recs, t) {
                    None => Err(Error::PackageNotFound),
                    Some(rec) => match str_field(rec, "version"@) {
                        Some(v) => Ok((t, v)),
                        None => Err(Error::DependencyFormat),
                    },
                }
            }
        },
        _ => Err(Error::DependencyFormat),
    }
}

/// The packages that a list of references designates, in order; the error of
/// the first reference that fails.
pub open spec fn reference_ids(recs: Seq<Node>, refs: Seq<Node>) -> Result<Seq<(Seq<char>, Seq<char>)>, Error>
    decreases refs.len(),
{
    if refs.len() == 0 {
        Ok(Seq::empty())
    } else {
        match reference_ids(recs, refs.drop_last()) {
            Err(e) => Err(e),
            Ok(p) => match reference_id(recs, refs.last()) {
                Ok(x) => Ok(p.push(x)),
                Err(e) => Err(e),
            },
        }
    }
}

/// The dependencies of package `target` in a lock graph. A record without a
/// `dependencies` array has none.
pub open spec fn lock_deps(doc: Node, target: Seq<char>) -> Result<Seq<(Seq<char>, Seq<char>)>, Error> {
    let recs = lock_records(doc);
    match find_record(recs, target) {
        None => Err(Error::PackageNotFound),
        Some(rec) => match field(rec, "dependencies"@) {
            None => Ok(Seq::empty()),
            Some(Node::Array(a)) => reference_ids(recs, a@),
            Some(_) => Err(Error::DependencyFormat),
        },
    }
}

/// The `(name, version)` of each record that has both as strings, in order.
pub open spec fn metadata_of(recs: Seq<Node>) -> Seq<(Seq<char>, Seq<char>)>
    decreases recs.len(),
{
    if recs.len() == 0 {
        Seq::empty()
    } else {
        let m = metadata_of(recs.drop_last());
        match (str_field(recs.last(), "name"@), str_field(recs.last(), "version"@)) {
            (Some(n), Some(v)) => m.push((n, v)),
            _ => m,
        }
    }
}

pub open spec fn ids_view(v: Seq<PackageId>) -> Seq<(Seq<char>, Seq<char>)> {
    v.map_values(|p: PackageId| (p.name@, p.version@))
}

proof fn lemma_find_record_skip(recs: Seq<Node>, name: Seq<char>, i: int)
    requires
        0 <= i <= recs.len(),
        forall|j: int| 0 <= j < i ==> str_field(#[trigger] recs[j], "name"@) != Some(name),
    ensures
        find_record(recs, name) == find_record(recs.subrange(i, recs.len() as int), name),
    decreases i,
{
    if i > 0 {
        let rest = recs.drop_first();
        assert forall|j: int| 0 <= j < i - 1 implies str_field(#[trigger] rest[j], "name"@) != Some(name) by {
            assert(rest[j] == recs[j + 1]);
        }
        lemma_find_record_skip(rest, name, i - 1);
        assert(rest.subrange(i - 1, rest.len() as int) =~= recs.subrange(i, recs.len() as int));
    } else {
        assert(recs.subrange(0, recs.len() as int) =~= recs);
    }
}

proof fn lemma_reference_ids_err(recs: Seq<Node>, refs: Seq<Node>, k: int)
    requires
        0 <= k <= refs.len(),
        reference_ids(recs, refs.subrange(0, k)) is Err,
    ensures
        reference_ids(recs, refs) == reference_ids(recs, refs.subrange(0, k)),
    decreases refs.len() - k,
{
    if k == refs.len() {
        assert(refs.subrange(0, k) =~= refs);
    } else {
        assert(refs.subrange(0, k + 1).drop_last() =~= refs.subrange(0, k));
        lemma_reference_ids_err(recs, refs, k + 1);
    }
}

/// Finds the first record of `recs` named `name`.
fn find_package<'a>(recs: &'a Vec<Node>, name: &str) -> (r: Option<&'a Node>)
    ensures
        match r {
            Some(n) => find_record(recs@, name@) == Some(*n),
            None => find_record(recs@, name@) is None,
        },
{
    let mut i: usize = 0;
    while i < recs.len()
        invariant
            i <= recs@.len(),
            forall|j: int| 0 <= j < i ==> str_field(#[trigger] recs@[j], "name"@) != Some(name@),
        decreases recs.len() - i,
    {
        let found = match get_str_field(&recs[i], "name") {
            Some(n) => crate::text::same_text(n, name),
            None => false,
        };
        if found {
            proof {
                lemma_find_record_skip(recs@, name@, i as int);
                let rest = recs@.subrange(i as int, recs@.len() as int);
                assert(rest[0] == recs@[i as int]);
            }
            return Some(&recs[i]);
        }
        i = i + 1;
    }
    proof { lemma_find_record_skip(recs@, name@, i as int); }
    None
}

/// The package that one dependency reference designates.
fn resolve_reference(recs: &Vec<Node>, r: &Node) -> (res: Result<PackageId, Error>)
    ensures
        match reference_id(recs@, *r) {
            Ok(x) => res is Ok && (res->Ok_0.name@, res->Ok_0.version@) == x,
            Err(e) => res is Err && res->Err_0 == e,
        },
{
    let s = match r {
        Node::Str(s) => s.as_str(),
        _ => return Err(Error::DependencyFormat),
    };
    let n = s.unicode_len();
    let sp = find_char(s, ' ');
    proof { lemma_index_or_len(s@, ' '); }
    if sp < n {
        let name = s.substring_char(0, sp);
        let rest = s.substring_char(sp + 1, n);
        let end = find_char(rest, ' ');
        proof { lemma_index_or_len(rest@, ' '); }
        let version = rest.substring_char(0, end);
        if name.unicode_len() == 0 || version.unicode_len() == 0 {
            Err(Error::DependencyFormat)
        } else {
            Ok(PackageId::new(name, version))
        }
    } else if n == 0 {
        Err(Error::DependencyFormat)
    } else {
        match find_package(recs, s) {
            None => Err(Error::PackageNotFound),
            Some(rec) => match get_str_field(rec, "version") {
                Some(v) => Ok(PackageId::new(s, v)),
                None => Err(Error::DependencyFormat),
            },
        }
    }
}

/// The exact identifiers of all dependencies of package `target` in a lock
/// graph, in the order its record lists them.
pub fn lock_dependencies(doc: &Node, target: &str) -> (r: Result<Vec<PackageId>, Error>)
    ensures
        match lock_deps(*doc, target@) {
            Ok(p) => r is Ok && ids_view(r->Ok_0@) == p,
            Err(e) => r is Err && r->Err_0 == e,
        },
{
    let recs = match get_field(doc, "package") {
        Some(Node::Array(a)) => a,
        _ => return Err(Error::PackageNotFound),
    };
    let top = match find_package(recs, target) {
        Some(t) => t,
        None => return Err(Error::PackageNotFound),
    };
    let refs = match get_field(top, "dependencies") {
        None => {
            assert(ids_view(Seq::<PackageId>::empty()) =~= Seq::empty());
            return Ok(Vec::new());
        },
        Some(Node::Array(a)) => a,
        Some(_) => return Err(Error::DependencyFormat),
    };
    let mut out: Vec<PackageId> = Vec::new();
    let mut i: usize = 0;
    assert(refs@.subrange(0, 0) =~= Seq::<Node>::empty());
    assert(ids_view(out@) =~= Seq::empty());
    while i < refs.len()
        invariant
            recs@ == lock_records(*doc),
            find_record(recs@, target@) == Some(*top),
            field(*top, "dependencies"@) == Some(Node::Array(*refs)),
            i <= refs@.len(),
            reference_ids(recs@, refs@.subrange(0, i as int)) == Ok::<Seq<(Seq<char>, Seq<char>)>, Error>(ids_view(out@)),
        decreases refs.len() - i,
    {
        let res = resolve_reference(recs, &refs[i]);
        proof {
            assert(refs@.subrange(0, i + 1).drop_last() =~= refs@.subrange(0, i as int));
            assert(refs@.subrange(0, i + 1).last() == refs@[i as int]);
        }
        match res {
            Ok(id) => {
                let ghost before = out@;
                out.push(id);
                assert(out@.drop_last() =~= before);
                assert(ids_view(out@) =~= ids_view(before).push((out@.last().name@, out@.last().version@)));
            },
            Err(e) => {
                proof {
                    let pre = refs@.subrange(0, i + 1);
                    assert(reference_id(recs@, pre.last()) == Err::<(Seq<char>, Seq<char>), Error>(e));
                    assert(reference_ids(recs@, pre) == Err::<Seq<(Seq<char>, Seq<char>)>, Error>(e));
                    lemma_reference_ids_err(recs@, refs@, i + 1);
                }
                return Err(e);
            },
        }
        i = i + 1;
    }
    assert(refs@.subrange(0, i as int) =~= refs@);
    Ok(out)
}

/// The `(name, version)` of every package of a lock graph whose record has
/// both, in the graph's order: the resolution metadata of the workspace.
pub fn lock_metadata(doc: &Node) -> (r: Vec<PackageId>)
    ensures
        ids_view(r@) == metadata_of(lock_records(*doc)),
{
    let mut out: Vec<PackageId> = Vec::new();
    let recs = match get_field(doc, "package") {
        Some(Node::Array(a)) => a,
        _ => {
            assert(ids_view(out@) =~= Seq::empty());
            return out;
        },
    };
    let mut i: usize = 0;
    assert(recs@.subrange(0, 0) =~= Seq::<Node>::empty());
    assert(ids_view(out@) =~= Seq::empty());
    while i < recs.len()
        invariant
            recs@ == lock_records(*doc),
            i <= recs@.len(),
            ids_view(out@) == metadata_of(recs@.subrange(0, i as int)),
        decreases recs.len() - i,
    {
        proof {
            assert(recs@.subrange(0, i + 1).drop_last() =~= recs@.subrange(0, i as int));
            assert(recs@.subrange(0, i + 1).last() == recs@[i as int]);
        }
        match (get_str_field(&recs[i], "name"), get_str_field(&recs[i], "version")) {
            (Some(n), Some(v)) => {
                let ghost before = out@;
                out.push(PackageId::new(n, v));
                assert(out@.drop_last() =~= before);
                assert(ids_view(out@) =~= ids_view(before).push((out@.last().name@, out@.last().version@)));
            },
            _ => {},
        }
        i = i + 1;
    }
    assert(recs@.subrange(0, i as int) =~= recs@);
    out
}

/// Querying a package that no record of the lock graph names fails with
/// `PackageNotFound`.
pub proof fn lemma_absent_package(doc: Node, target: Seq<char>)
    requires
        forall|j: int| 0 <= j < lock_records(doc).len() ==> str_field(#[trigger] lock_records(doc)[j], "name"@) != Some(target),
    ensures
        lock_deps(doc, target) == Err::<Seq<(Seq<char>, Seq<char>)>, Error>(Error::PackageNotFound),
{
    let recs = lock_records(doc);
    lemma_find_record_skip(recs, target, recs.len() as int);
    assert(recs.subrange(recs.len() as int, recs.len() as int).len() == 0);
}

} // verus!
