use vstd::prelude::*;

verus! {

/// One exact package, selected for the build tool by `name:version`.
#[derive(Debug, Clone, PartialEq, Eq)]
pub struct PackageId {
    pub name: String,
    pub version: String,
}

/// The token `name:version`.
pub open spec fn id_token(name: Seq<char>, version: Seq<char>) -> Seq<char> {
    name + seq![':'] + version
}

/// Joins a name and a version into the token `name:version`.
pub fn format_id(name: &str, version: &str) -> (r: String)
    ensures
        r@ == id_token(name@, version@),
{
    let mut r = String::from_str(name);
    r.append(":");
    proof { reveal_strlit(":"); }
    r.append(version);
    r
}

impl PackageId {
    pub open spec fn token(&self) -> Seq<char> {
        id_token(self.name@, self.version@)
    }

    pub fn new(name: &str, version: &str) -> (r: PackageId)
        ensures
            r.name@ == name@,
            r.version@ == version@,
    {
        PackageId { name: String::from_str(name), version: String::from_str(version) }
    }

    /// The identifier written as `name:version`.
    pub fn to_token(&self) -> (r: String)
        ensures
            r@ == self.token(),
    {
        format_id(self.name.as_str(), self.version.as_str())
    }
}

} // verus!
