use crate::copy_stage::{
    dedup, destination_of, failures_of, has_extension, job_matches, names_of, BuildArtifact, CopyJob,
};
use crate::layout::{dotted3, extension_of, join_spec};
use crate::package_stage::{archive_extension_of, package_name_spec, packaged, PackageResult};
use vstd::prelude::*;

verus! {

proof fn lemma_common_suffix(a: Seq<char>, b: Seq<char>, s: Seq<char>)
    requires
        a + s == b + s,
    ensures
        a == b,
{
    assert((a + s).len() == (b + s).len());
    assert(a =~= (a + s).subrange(0, a.len() as int));
    assert(b =~= (b + s).subrange(0, b.len() as int));
}

proof fn lemma_join_injective(base: Seq<char>, x: Seq<char>, y: Seq<char>)
    requires
        join_spec(base, x) == join_spec(base, y),
    ensures
        x == y,
{
    let p = if base.len() == 0 {
        Seq::<char>::empty()
    } else if base.last() == '/' {
        base
    } else {
        base + seq!['/']
    };
    assert(join_spec(base, x) =~= p + x);
    assert(join_spec(base, y) =~= p + y);
    assert(x =~= (p + x).subrange(p.len() as int, (p + x).len() as int));
    assert(y =~= (p + y).subrange(p.len() as int, (p + y).len() as int));
}

/// Two artifacts with the same extension land on the same file of the
/// build directory exactly when they belong to the same crate: the build
/// directory holds one file per distinct crate name.
pub proof fn lemma_one_file_per_crate(
    dest_dir: Seq<char>,
    tag: Seq<char>,
    a: BuildArtifact,
    b: BuildArtifact,
)
    requires
        has_extension(a),
        has_extension(b),
        extension_of(a.artifact_path@) == extension_of(b.artifact_path@),
    ensures
        (destination_of(dest_dir, tag, a) == destination_of(dest_dir, tag, b)) == (a.crate_name@
            == b.crate_name@),
{
    let ext = extension_of(a.artifact_path@)->Some_0;
    let s = seq!['.'] + tag + seq!['.'] + ext;
    assert(dotted3(a.crate_name@, tag, ext) =~= a.crate_name@ + s);
    assert(dotted3(b.crate_name@, tag, ext) =~= b.crate_name@ + s);
    if destination_of(dest_dir, tag, a) == destination_of(dest_dir, tag, b) {
        lemma_join_injective(
            dest_dir,
            dotted3(a.crate_name@, tag, ext),
            dotted3(b.crate_name@, tag, ext),
        );
        lemma_common_suffix(a.crate_name@, b.crate_name@, s);
    }
}

/// Planning the copies twice for the same artifacts, platform and directory
/// gives the same sources and destinations, so a second run overwrites the
/// files of the first and adds none.
pub proof fn lemma_copies_repeatable(
    first: Seq<CopyJob>,
    second: Seq<CopyJob>,
    dest_dir: Seq<char>,
    tag: Seq<char>,
    artifacts: Seq<BuildArtifact>,
)
    requires
        first.len() == artifacts.len(),
        second.len() == artifacts.len(),
        forall|i: int|
            0 <= i < artifacts.len() ==> job_matches(#[trigger] first[i], dest_dir, tag, artifacts[i]),
        forall|i: int|
            0 <= i < artifacts.len() ==> job_matches(#[trigger] second[i], dest_dir, tag, artifacts[i]),
    ensures
        forall|i: int|
            0 <= i < artifacts.len() ==> (#[trigger] first[i]).source@ == second[i].source@
                && first[i].destination@ == second[i].destination@,
{
    assert forall|i: int| 0 <= i < artifacts.len() implies (#[trigger] first[i]).source@
        == second[i].source@ && first[i].destination@ == second[i].destination@ by {
        assert(job_matches(first[i], dest_dir, tag, artifacts[i]));
        assert(job_matches(second[i], dest_dir, tag, artifacts[i]));
    }
}

/// Packages of distinct crates, for one platform and archive extension,
/// have distinct public names: packaging a set of crates leaves one
/// archive per crate.
pub proof fn lemma_one_package_per_crate(
    a: Seq<char>,
    b: Seq<char>,
    display: Seq<char>,
    ext: Seq<char>,
)
    ensures
        (package_name_spec(a, display, ext) == package_name_spec(b, display, ext)) == (a == b),
{
    let s = seq!['.'] + display + seq!['.', 's', 'w', 'c', '-', 'p', 'k', 'g', '.'] + ext;
    assert(package_name_spec(a, display, ext) =~= a + s);
    assert(package_name_spec(b, display, ext) =~= b + s);
    if package_name_spec(a, display, ext) == package_name_spec(b, display, ext) {
        lemma_common_suffix(a, b, s);
    }
}

/// The names without repeats hold no name twice, and hold the same names.
pub proof fn lemma_dedup(s: Seq<Seq<char>>)
    ensures
        dedup(s).no_duplicates(),
        forall|x: Seq<char>| dedup(s).contains(x) <==> s.contains(x),
    decreases s.len(),
{
    if s.len() > 0 {
        let p = s.drop_last();
        lemma_dedup(p);
        let d = dedup(p);
        let l = s.last();
        assert forall|x: Seq<char>| dedup(s).contains(x) <==> s.contains(x) by {
            if dedup(s).contains(x) {
                let k = choose|k: int| 0 <= k < dedup(s).len() && dedup(s)[k] == x;
                if k < d.len() {
                    assert(d[k] == x);
                    assert(d.contains(x));
                    assert(p.contains(x));
                    let i = choose|i: int| 0 <= i < p.len() && p[i] == x;
                    assert(s[i] == x);
                } else {
                    assert(s[s.len() - 1] == x);
                }
            }
            if s.contains(x) {
                let i = choose|i: int| 0 <= i < s.len() && s[i] == x;
                if i < s.len() - 1 {
                    assert(p[i] == x);
                    assert(p.contains(x));
                    let k = choose|k: int| 0 <= k < d.len() && d[k] == x;
                    if !d.contains(l) {
                        assert(d.push(l)[k] == x);
                    }
                } else if !d.contains(l) {
                    assert(d.push(l)[d.len() as int] == x);
                }
            }
        }
    }
}

/// The outcome of a copy stage in which some copies failed lists exactly
/// those: every listed failure is the crate, path and cause of a copy that
/// failed, every failed copy is listed, and the list is empty exactly when
/// no copy failed.
pub proof fn lemma_failures_exact(artifacts: Seq<BuildArtifact>, outcomes: Seq<Option<String>>)
    requires
        outcomes.len() == artifacts.len(),
    ensures
        forall|k: int|
            0 <= k < failures_of(artifacts, outcomes).len() ==> exists|i: int|
                0 <= i < artifacts.len() && outcomes[i] is Some && #[trigger] failures_of(
                    artifacts,
                    outcomes,
                )[k] == (artifacts[i].crate_name@, artifacts[i].artifact_path@, outcomes[i]->Some_0@),
        forall|i: int|
            0 <= i < artifacts.len() && #[trigger] outcomes[i] is Some ==> failures_of(
                artifacts,
                outcomes,
            ).contains((artifacts[i].crate_name@, artifacts[i].artifact_path@, outcomes[i]->Some_0@)),
        (failures_of(artifacts, outcomes).len() == 0) == (forall|i: int|
            0 <= i < outcomes.len() ==> outcomes[i] is None),
    decreases artifacts.len(),
{
    if artifacts.len() > 0 {
        let a = artifacts.drop_last();
        let o = outcomes.drop_last();
        lemma_failures_exact(a, o);
        let f = failures_of(artifacts, outcomes);
        let g = failures_of(a, o);
        let n = artifacts.len() - 1;
        assert forall|k: int| 0 <= k < f.len() implies exists|i: int|
            0 <= i < artifacts.len() && outcomes[i] is Some && #[trigger] f[k] == (
                artifacts[i].crate_name@,
                artifacts[i].artifact_path@,
                outcomes[i]->Some_0@,
            ) by {
            if k < g.len() {
                assert(f[k] == g[k]);
                let i = choose|i: int|
                    0 <= i < a.len() && o[i] is Some && #[trigger] g[k] == (
                        a[i].crate_name@,
                        a[i].artifact_path@,
                        o[i]->Some_0@,
                    );
                assert(a[i] == artifacts[i] && o[i] == outcomes[i]);
            } else {
                assert(outcomes[n] is Some);
            }
        }
        assert forall|i: int| 0 <= i < artifacts.len() && #[trigger] outcomes[i] is Some implies f.contains(
            (artifacts[i].crate_name@, artifacts[i].artifact_path@, outcomes[i]->Some_0@),
        ) by {
            let x = (artifacts[i].crate_name@, artifacts[i].artifact_path@, outcomes[i]->Some_0@);
            if i < n {
                assert(a[i] == artifacts[i] && o[i] == outcomes[i]);
                assert(o[i] is Some);
                assert(g.contains(x));
                let k = choose|k: int| 0 <= k < g.len() && g[k] == x;
                assert(f[k] == x);
            } else {
                assert(f[f.len() - 1] == x);
            }
        }
        if f.len() == 0 {
            assert forall|i: int| 0 <= i < outcomes.len() implies outcomes[i] is None by {
                if i < n {
                    assert(o[i] == outcomes[i]);
                }
            }
        } else {
            if outcomes.last() is None {
                let k = 0int;
                let i = choose|i: int|
                    0 <= i < a.len() && o[i] is Some && #[trigger] g[k] == (
                        a[i].crate_name@,
                        a[i].artifact_path@,
                        o[i]->Some_0@,
                    );
                assert(o[i] == outcomes[i]);
            }
        }
    }
}

/// The name in the build directory of a crate's library with extension
/// `ext`.
pub open spec fn crate_destination(dest_dir: Seq<char>, tag: Seq<char>, ext: Seq<char>, name: Seq<
    char,
>) -> Seq<char> {
    join_spec(dest_dir, dotted3(name, tag, ext))
}

/// The files that a copy stage writes.
pub open spec fn destinations(jobs: Seq<CopyJob>) -> Set<Seq<char>> {
    Set::new(|d: Seq<char>| exists|i: int| 0 <= i < jobs.len() && #[trigger] jobs[i].destination@ == d)
}

/// Copying artifacts that share one extension writes exactly one file per
/// distinct crate name: the set of destinations has as many elements as
/// there are distinct crate names.
pub proof fn lemma_file_count(
    dest_dir: Seq<char>,
    tag: Seq<char>,
    ext: Seq<char>,
    artifacts: Seq<BuildArtifact>,
    jobs: Seq<CopyJob>,
)
    requires
        jobs.len() == artifacts.len(),
        forall|i: int|
            0 <= i < artifacts.len() ==> job_matches(#[trigger] jobs[i], dest_dir, tag, artifacts[i]),
        forall|i: int|
            0 <= i < artifacts.len() ==> extension_of(#[trigger] artifacts[i].artifact_path@) == Some(
                ext,
            ),
    ensures
        destinations(jobs).finite(),
        destinations(jobs).len() == dedup(names_of(artifacts)).len(),
{
    let names = names_of(artifacts);
    let d = dedup(names);
    lemma_dedup(names);
    let f = |x: Seq<char>| crate_destination(dest_dir, tag, ext, x);
    let m = d.map_values(f);
    assert forall|i: int, j: int| 0 <= i < m.len() && 0 <= j < m.len() && i != j implies m[i]
        != m[j] by {
        let s = seq!['.'] + tag + seq!['.'] + ext;
        assert(dotted3(d[i], tag, ext) =~= d[i] + s);
        assert(dotted3(d[j], tag, ext) =~= d[j] + s);
        if m[i] == m[j] {
            lemma_join_injective(dest_dir, dotted3(d[i], tag, ext), dotted3(d[j], tag, ext));
            lemma_common_suffix(d[i], d[j], s);
        }
    }
    assert(m.no_duplicates());
    m.unique_seq_to_set();
    assert forall|x: Seq<char>| destinations(jobs).contains(x) <==> m.to_set().contains(x) by {
        if destinations(jobs).contains(x) {
            let i = choose|i: int| 0 <= i < jobs.len() && #[trigger] jobs[i].destination@ == x;
            assert(job_matches(jobs[i], dest_dir, tag, artifacts[i]));
            assert(names[i] == artifacts[i].crate_name@);
            assert(names.contains(names[i]));
            let k = choose|k: int| 0 <= k < d.len() && d[k] == names[i];
            assert(m[k] == x);
        }
        if m.to_set().contains(x) {
            let k = choose|k: int| 0 <= k < m.len() && m[k] == x;
            assert(d.contains(d[k]));
            assert(names.contains(d[k]));
            let i = choose|i: int| 0 <= i < names.len() && names[i] == d[k];
            assert(job_matches(jobs[i], dest_dir, tag, artifacts[i]));
            assert(artifacts[i].crate_name@ == d[k]);
            assert(jobs[i].destination@ == x);
        }
    }
    assert(destinations(jobs) =~= m.to_set());
}

/// The public files of a packaging run.
pub open spec fn final_files(results: Seq<PackageResult>) -> Set<Seq<char>> {
    Set::new(
        |d: Seq<char>| exists|i: int| 0 <= i < results.len() && #[trigger] results[i].final_path@ == d,
    )
}

/// A packaging run over distinct crate names that finished, with archives
/// of one extension, leaves exactly one public file per crate.
pub proof fn lemma_package_count(
    names: Seq<Seq<char>>,
    results: Seq<PackageResult>,
    out_dir: Seq<char>,
    display: Seq<char>,
    ext: Seq<char>,
)
    requires
        names.no_duplicates(),
        results.len() == names.len(),
        forall|i: int|
            0 <= i < results.len() ==> (#[trigger] results[i]).crate_name@ == names[i] && packaged(
                results[i],
                out_dir,
                display,
            ) && archive_extension_of(results[i].archive_path@) == Some(ext),
    ensures
        final_files(results).finite(),
        final_files(results).len() == names.len(),
{
    let m = results.map_values(|r: PackageResult| r.final_path@);
    assert forall|i: int, j: int| 0 <= i < m.len() && 0 <= j < m.len() && i != j implies m[i]
        != m[j] by {
        assert(packaged(results[i], out_dir, display));
        assert(packaged(results[j], out_dir, display));
        if m[i] == m[j] {
            lemma_join_injective(
                out_dir,
                package_name_spec(names[i], display, ext),
                package_name_spec(names[j], display, ext),
            );
            lemma_one_package_per_crate(names[i], names[j], display, ext);
        }
    }
    assert(m.no_duplicates());
    m.unique_seq_to_set();
    assert forall|x: Seq<char>| final_files(results).contains(x) <==> m.to_set().contains(x) by {
        if final_files(results).contains(x) {
            let i = choose|i: int| 0 <= i < results.len() && #[trigger] results[i].final_path@ == x;
            assert(m[i] == x);
        }
        if m.to_set().contains(x) {
            let k = choose|k: int| 0 <= k < m.len() && m[k] == x;
            assert(results[k].final_path@ == x);
        }
    }
    assert(final_files(results) =~= m.to_set());
}

} // verus!
