use crate::crate_set::{empty_set, insert_name, into_names, set_items};
use crate::layout::{dotted, dotted3, extension, extension_of, join, join_spec};
use crate::platform::PlatformDetail;
use vstd::prelude::*;

verus! {

/// A compiled dynamic library of one crate of the workspace.
#[derive(Debug, Clone, PartialEq, Eq)]
pub struct BuildArtifact {
    pub crate_name: String,
    pub artifact_path: String,
}

/// One copy to perform: the artifact's bytes go from `source` to
/// `destination`.
#[derive(Debug, Clone, PartialEq, Eq)]
pub struct CopyJob {
    pub crate_name: String,
    pub source: String,
    pub destination: String,
}

/// An artifact whose path has no extension, which a dynamic library always
/// has.
#[derive(Debug, Clone, PartialEq, Eq)]
pub enum CopyPlanError {
    MissingExtension { crate_name: String, artifact_path: String },
}

/// One copy that failed, with its cause.
#[derive(Debug, Clone, PartialEq, Eq)]
pub struct CopyFailure {
    pub crate_name: String,
    pub artifact_path: String,
    pub cause: String,
}

/// Every failure of one copy stage.
#[derive(Debug, Clone, PartialEq, Eq)]
pub struct AggregatedCopyError {
    pub failures: Vec<CopyFailure>,
}

/// The name an artifact takes in the build directory:
/// `{crate_name}.{arch_abi_tag}.{extension}`.
pub open spec fn artifact_name_spec(crate_name: Seq<char>, tag: Seq<char>, ext: Seq<char>) -> Seq<
    char,
> {
    dotted3(crate_name, tag, ext)
}

/// Where an artifact is copied to, inside `dest_dir`.
pub open spec fn destination_of(dest_dir: Seq<char>, tag: Seq<char>, a: BuildArtifact) -> Seq<char> {
    join_spec(
        dest_dir,
        artifact_name_spec(a.crate_name@, tag, extension_of(a.artifact_path@)->Some_0),
    )
}

/// The copy that an artifact gives.
pub open spec fn job_matches(j: CopyJob, dest_dir: Seq<char>, tag: Seq<char>, a: BuildArtifact) -> bool {
    &&& j.crate_name@ == a.crate_name@
    &&& j.source@ == a.artifact_path@
    &&& j.destination@ == destination_of(dest_dir, tag, a)
}

pub open spec fn has_extension(a: BuildArtifact) -> bool {
    extension_of(a.artifact_path@) is Some
}

/// The crate names of the artifacts, in order.
pub open spec fn names_of(arts: Seq<BuildArtifact>) -> Seq<Seq<char>> {
    arts.map_values(|a: BuildArtifact| a.crate_name@)
}

/// The names of `s` without repeats, each where it first occurs.
pub open spec fn dedup(s: Seq<Seq<char>>) -> Seq<Seq<char>>
    decreases s.len(),
{
    if s.len() == 0 {
        Seq::empty()
    } else {
        let d = dedup(s.drop_last());
        if d.contains(s.last()) {
            d
        } else {
            d.push(s.last())
        }
    }
}

/// The failures among the outcomes, each as crate name, path and cause, in
/// the order of the artifacts.
pub open spec fn failures_of(arts: Seq<BuildArtifact>, outcomes: Seq<Option<String>>) -> Seq<
    (Seq<char>, Seq<char>, Seq<char>),
>
    decreases arts.len(),
{
    if arts.len() == 0 || outcomes.len() == 0 {
        Seq::empty()
    } else {
        let f = failures_of(arts.drop_last(), outcomes.drop_last());
        match outcomes.last() {
            Some(c) => f.push((arts.last().crate_name@, arts.last().artifact_path@, c@)),
            None => f,
        }
    }
}

/// A failure as crate name, path and cause.
pub open spec fn failure_view(f: CopyFailure) -> (Seq<char>, Seq<char>, Seq<char>) {
    (f.crate_name@, f.artifact_path@, f.cause@)
}

/// The name an artifact of `crate_name` with extension `ext` takes in the
/// build directory.
pub fn artifact_file_name(crate_name: &str, platform: &PlatformDetail, ext: &str) -> (r: String)
    ensures
        r@ == artifact_name_spec(crate_name@, platform.tag_spec(), ext@),
{
    dotted(crate_name, platform.arch_abi_tag(), ext)
}

/// The copies that put every artifact into `dest_dir` under its canonical
/// name, one per artifact and in the same order. Fails on the first artifact
/// whose path has no extension.
pub fn plan_copies(artifacts: &Vec<BuildArtifact>, platform: &PlatformDetail, dest_dir: &str) -> (r:
    Result<Vec<CopyJob>, CopyPlanError>)
    ensures
        match r {
            Ok(jobs) => {
                &&& forall|i: int| 0 <= i < artifacts@.len() ==> has_extension(artifacts@[i])
                &&& jobs@.len() == artifacts@.len()
                &&& forall|i: int|
                    0 <= i < jobs@.len() ==> job_matches(
                        #[trigger] jobs@[i],
                        dest_dir@,
                        platform.tag_spec(),
                        artifacts@[i],
                    )
            },
            Err(CopyPlanError::MissingExtension { crate_name, artifact_path }) => exists|k: int|
                {
                    &&& 0 <= k < artifacts@.len()
                    &&& !has_extension(#[trigger] artifacts@[k])
                    &&& forall|i: int| 0 <= i < k ==> has_extension(artifacts@[i])
                    &&& crate_name@ == artifacts@[k].crate_name@
                    &&& artifact_path@ == artifacts@[k].artifact_path@
                },
        },
{
    let mut jobs: Vec<CopyJob> = Vec::new();
    let mut i: usize = 0;
    while i < artifacts.len()
        invariant
            i <= artifacts@.len(),
            jobs@.len() == i,
            forall|k: int| 0 <= k < i ==> has_extension(artifacts@[k]),
            forall|k: int|
                0 <= k < i ==> job_matches(
                    #[trigger] jobs@[k],
                    dest_dir@,
                    platform.tag_spec(),
                    artifacts@[k],
                ),
        decreases artifacts@.len() - i,
    {
        let a = &artifacts[i];
        match extension(a.artifact_path.as_str()) {
            Some(ext) => {
                let name = artifact_file_name(a.crate_name.as_str(), platform, ext.as_str());
                let destination = join(dest_dir, name.as_str());
                jobs.push(
                    CopyJob {
                        crate_name: a.crate_name.clone(),
                        source: a.artifact_path.clone(),
                        destination,
                    },
                );
            },
            None => {
                return Err(
                    CopyPlanError::MissingExtension {
                        crate_name: a.crate_name.clone(),
                        artifact_path: a.artifact_path.clone(),
                    },
                );
            },
        }
        i = i + 1;
    }
    Ok(jobs)
}

/// Folds the outcomes of the copies, one per artifact (`None` for a copy
/// that succeeded, else its cause), into one result: the crate names without
/// repeats, in first-seen order, when every copy succeeded; else every
/// failure, in the order of the artifacts.
pub fn collect_outcomes(artifacts: &Vec<BuildArtifact>, outcomes: &Vec<Option<String>>) -> (r:
    Result<Vec<String>, AggregatedCopyError>)
    requires
        outcomes@.len() == artifacts@.len(),
    ensures
        r is Ok <==> forall|i: int| 0 <= i < outcomes@.len() ==> outcomes@[i] is None,
        match r {
            Ok(names) => names@.map_values(|s: String| s@) == dedup(names_of(artifacts@)),
            Err(e) => e.failures@.map_values(|f: CopyFailure| failure_view(f)) == failures_of(
                artifacts@,
                outcomes@,
            ),
        },
{
    let mut set = empty_set();
    let mut failures: Vec<CopyFailure> = Vec::new();
    let n = artifacts.len();
    let mut i: usize = 0;
    while i < n
        invariant
            n == artifacts@.len(),
            outcomes@.len() == n,
            i <= n,
            set_items(set) == dedup(names_of(artifacts@.subrange(0, i as int))),
            failures@.map_values(|f: CopyFailure| failure_view(f)) == failures_of(
                artifacts@.subrange(0, i as int),
                outcomes@.subrange(0, i as int),
            ),
            (failures@.len() == 0) == forall|k: int| 0 <= k < i ==> outcomes@[k] is None,
        decreases n - i,
    {
        let a = &artifacts[i];
        proof {
            let arts = artifacts@.subrange(0, i + 1);
            let outs = outcomes@.subrange(0, i + 1);
            assert(arts.drop_last() =~= artifacts@.subrange(0, i as int));
            assert(outs.drop_last() =~= outcomes@.subrange(0, i as int));
            assert(names_of(arts).drop_last() =~= names_of(artifacts@.subrange(0, i as int)));
        }
        insert_name(&mut set, a.crate_name.clone());
        match &outcomes[i] {
            Some(cause) => {
                failures.push(
                    CopyFailure {
                        crate_name: a.crate_name.clone(),
                        artifact_path: a.artifact_path.clone(),
                        cause: cause.clone(),
                    },
                );
                proof {
                    assert(failures@.map_values(|f: CopyFailure| failure_view(f)) =~= failures_of(
                        artifacts@.subrange(0, i + 1),
                        outcomes@.subrange(0, i + 1),
                    ));
                }
            },
            None => {
                proof {
                    assert(failures@.map_values(|f: CopyFailure| failure_view(f)) =~= failures_of(
                        artifacts@.subrange(0, i + 1),
                        outcomes@.subrange(0, i + 1),
                    ));
                }
            },
        }
        i = i + 1;
    }
    proof {
        assert(artifacts@.subrange(0, n as int) =~= artifacts@);
        assert(outcomes@.subrange(0, n as int) =~= outcomes@);
    }
    if failures.len() == 0 {
        Ok(into_names(set))
    } else {
        Err(AggregatedCopyError { failures })
    }
}

} // verus!
