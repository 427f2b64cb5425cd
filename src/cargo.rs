use crate::layout::{join, join_spec, last_index, last_index_of, SEPARATOR};
use vstd::prelude::*;

verus! {

/// The directory under the cargo target directory that holds this tool's
/// output.
pub open spec fn swc_output_dir_spec(target_dir: Seq<char>) -> Seq<char> {
    join_spec(target_dir, seq!['.', 's', 'w', 'c'])
}

/// `.swc` under the cargo target directory `target_dir`.
pub fn swc_output_dir(target_dir: &str) -> (r: String)
    ensures
        r@ == swc_output_dir_spec(target_dir@),
{
    proof {
        reveal_strlit(".swc");
    }
    join(target_dir, ".swc")
}

/// The directory the built artifacts are copied to.
pub fn build_dir(output_base: &str) -> (r: String)
    ensures
        r@ == join_spec(output_base@, seq!['b', 'u', 'i', 'l', 'd']),
{
    proof {
        reveal_strlit("build");
    }
    join(output_base, "build")
}

/// The root of the package staging directories.
pub fn pkgs_dir(output_base: &str) -> (r: String)
    ensures
        r@ == join_spec(output_base@, seq!['p', 'k', 'g', 's']),
{
    proof {
        reveal_strlit("pkgs");
    }
    join(output_base, "pkgs")
}

/// A package that the metadata query reports.
#[derive(Debug, Clone, PartialEq, Eq)]
pub struct PackageEntry {
    pub id: String,
    pub name: String,
    pub manifest_path: String,
}

/// The directory of a manifest path: everything before its last
/// separator, `/` for a file at the root, empty for a bare file name.
/// Unlike `Path::parent` it does not fold a trailing separator or repeated
/// separators (`a/b/` gives `a/b`, `a//b` gives `a/`); manifest paths that
/// cargo reports have neither.
pub open spec fn parent_of(path: Seq<char>) -> Seq<char> {
    match last_index_of(path, SEPARATOR) {
        Some(k) => if k == 0 {
            seq![SEPARATOR]
        } else {
            path.subrange(0, k)
        },
        None => Seq::empty(),
    }
}

/// The packages that are workspace members, each as name and manifest
/// directory.
pub open spec fn members_of(packages: Seq<PackageEntry>, members: Seq<Seq<char>>) -> Seq<
    (Seq<char>, Seq<char>),
>
    decreases packages.len(),
{
    if packages.len() == 0 {
        Seq::empty()
    } else {
        let rest = members_of(packages.drop_last(), members);
        let p = packages.last();
        if members.contains(p.id@) {
            rest.push((p.name@, parent_of(p.manifest_path@)))
        } else {
            rest
        }
    }
}

/// The directory of a manifest path.
pub fn manifest_dir(path: &str) -> (r: String)
    ensures
        r@ == parent_of(path@),
{
    proof {
        reveal_strlit("/");
        reveal_strlit("");
    }
    match last_index(path, SEPARATOR) {
        Some(k) => if k == 0 {
            String::from_str("/")
        } else {
            String::from_str(path.substring_char(0, k))
        },
        None => String::from_str(""),
    }
}

fn contains_id(ids: &Vec<String>, id: &str) -> (r: bool)
    ensures
        r == ids@.map_values(|s: String| s@).contains(id@),
{
    let mut i: usize = 0;
    while i < ids.len()
        invariant
            i <= ids@.len(),
            forall|k: int| 0 <= k < i ==> ids@[k]@ != id@,
        decreases ids@.len() - i,
    {
        if ids[i].as_str().unicode_len() == id.unicode_len() && str_eq(ids[i].as_str(), id) {
            proof {
                assert(ids@.map_values(|s: String| s@)[i as int] == id@);
            }
            return true;
        }
        i = i + 1;
    }
    proof {
        let v = ids@.map_values(|s: String| s@);
        assert(forall|k: int| 0 <= k < v.len() ==> v[k] != id@);
    }
    false
}

fn str_eq(a: &str, b: &str) -> (r: bool)
    ensures
        r == (a@ == b@),
{
    let n = a.unicode_len();
    if n != b.unicode_len() {
        return false;
    }
    let mut i: usize = 0;
    while i < n
        invariant
            n == a@.len(),
            n == b@.len(),
            i <= n,
            forall|k: int| 0 <= k < i ==> a@[k] == b@[k],
        decreases n - i,
    {
        if a.get_char(i) != b.get_char(i) {
            return false;
        }
        i = i + 1;
    }
    proof {
        assert(a@ =~= b@);
    }
    true
}

/// The members of a cargo workspace, each as its name and the directory of
/// its manifest, in the order the metadata lists the packages; `members`
/// holds the package ids of the workspace members.
pub fn get_all_crates(packages: &Vec<PackageEntry>, members: &Vec<String>) -> (r: Vec<
    (String, String),
>)
    ensures
        r@.map_values(|e: (String, String)| (e.0@, e.1@)) == members_of(
            packages@,
            members@.map_values(|s: String| s@),
        ),
{
    let mut out: Vec<(String, String)> = Vec::new();
    let mut i: usize = 0;
    while i < packages.len()
        invariant
            i <= packages@.len(),
            out@.map_values(|e: (String, String)| (e.0@, e.1@)) == members_of(
                packages@.subrange(0, i as int),
                members@.map_values(|s: String| s@),
            ),
        decreases packages@.len() - i,
    {
        let p = &packages[i];
        proof {
            assert(packages@.subrange(0, i + 1).drop_last() =~= packages@.subrange(0, i as int));
        }
        if contains_id(members, p.id.as_str()) {
            let dir = manifest_dir(p.manifest_path.as_str());
            out.push((p.name.clone(), dir));
            proof {
                assert(out@.map_values(|e: (String, String)| (e.0@, e.1@)) =~= members_of(
                    packages@.subrange(0, i + 1),
                    members@.map_values(|s: String| s@),
                ));
            }
        }
        i = i + 1;
    }
    proof {
        assert(packages@.subrange(0, packages@.len() as int) =~= packages@);
    }
    out
}

/// Index of the first package named `name`.
pub open spec fn first_named(packages: Seq<PackageEntry>, name: Seq<char>) -> Option<int>
    decreases packages.len(),
{
    if packages.len() == 0 {
        None
    } else if packages[0].name@ == name {
        Some(0)
    } else {
        match first_named(packages.subrange(1, packages.len() as int), name) {
            Some(k) => Some(k + 1),
            None => None,
        }
    }
}

proof fn lemma_first_named_step(packages: Seq<PackageEntry>, name: Seq<char>, i: int)
    requires
        0 <= i < packages.len(),
    ensures
        first_named(packages.subrange(i, packages.len() as int), name) == if packages[i].name@
            == name {
            Some(0int)
        } else {
            match first_named(packages.subrange(i + 1, packages.len() as int), name) {
                Some(k) => Some(k + 1),
                None => None,
            }
        },
{
    let t = packages.subrange(i, packages.len() as int);
    assert(t.subrange(1, t.len() as int) =~= packages.subrange(i + 1, packages.len() as int));
}

/// The manifest path of the first package named `crate_name`, if any.
pub fn get_cargo_manifest_path(packages: &Vec<PackageEntry>, crate_name: &str) -> (r: Option<String>)
    ensures
        match first_named(packages@, crate_name@) {
            Some(k) => r is Some && r->Some_0@ == packages@[k].manifest_path@,
            None => r is None,
        },
{
    let n = packages.len();
    let mut i: usize = 0;
    proof {
        assert(packages@.subrange(0, n as int) =~= packages@);
    }
    while i < n
        invariant
            n == packages@.len(),
            i <= n,
            first_named(packages@, crate_name@) == match first_named(
                packages@.subrange(i as int, n as int),
                crate_name@,
            ) {
                Some(k) => Some(k + i),
                None => None,
            },
        decreases n - i,
    {
        proof {
            lemma_first_named_step(packages@, crate_name@, i as int);
        }
        if str_eq(packages[i].name.as_str(), crate_name) {
            return Some(packages[i].manifest_path.clone());
        }
        i = i + 1;
    }
    proof {
        assert(packages@.subrange(n as int, n as int).len() == 0);
    }
    None
}

} // verus!
