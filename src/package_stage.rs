use crate::layout::{
    extension, extension_of, file_name, file_name_of, join, join_spec, lemma_last_index_bounds,
};
use crate::platform::PlatformDetail;
use vstd::prelude::*;

verus! {

/// The files that packaging one crate left behind.
#[derive(Debug, Clone, PartialEq, Eq)]
pub struct PackageResult {
    pub crate_name: String,
    pub package_dir: String,
    pub archive_path: String,
    pub final_path: String,
}

impl PackageResult {
    /// A copy of the result.
    pub fn duplicate(&self) -> (r: PackageResult)
        ensures
            r == *self,
    {
        PackageResult {
            crate_name: self.crate_name.clone(),
            package_dir: self.package_dir.clone(),
            archive_path: self.archive_path.clone(),
            final_path: self.final_path.clone(),
        }
    }
}

/// Why packaging a crate failed; each names the crate.
#[derive(Debug, Clone, PartialEq, Eq)]
pub enum PackageError {
    PackageDirectoryFailed { crate_name: String, cause: String },
    ArchiveCreationFailed { crate_name: String, cause: String },
    MalformedArchiveName { crate_name: String, archive_path: String },
    ArchiveCopyFailed { crate_name: String, cause: String },
}

/// What the outside collaborators did for one crate.
#[derive(Debug, Clone, PartialEq, Eq)]
pub enum PackageOutcome {
    /// The package directory could not be built.
    DirectoryFailed { cause: String },
    /// The package directory was built but could not be archived.
    ArchiveFailed { package_dir: String, cause: String },
    /// The package directory was built and archived.
    Archived { package_dir: String, archive_path: String },
}

/// The extension of an archive: that of its path, with a `tar.` in front
/// where the rest of the file name ends in `.tar` (as in `foo.tar.gz`).
pub open spec fn archive_extension_of(path: Seq<char>) -> Option<Seq<char>> {
    match extension_of(path) {
        None => None,
        Some(e) => {
            let name = file_name_of(path);
            let stem = name.subrange(0, name.len() - e.len() - 1);
            if stem.len() > 4 && stem.subrange(stem.len() - 4, stem.len() as int) == seq![
                '.',
                't',
                'a',
                'r',
            ] {
                Some(seq!['t', 'a', 'r', '.'] + e)
            } else {
                Some(e)
            }
        },
    }
}

/// The extension of an archive, keeping a `.tar.` double extension whole.
pub fn archive_extension(path: &str) -> (r: Option<String>)
    ensures
        match r {
            Some(e) => archive_extension_of(path@) == Some(e@),
            None => archive_extension_of(path@) is None,
        },
{
    let name = file_name(path);
    match extension(path) {
        None => None,
        Some(e) => {
            let ghost nm = name@;
            proof {
                lemma_last_index_bounds(nm, '.');
            }
            let n = name.unicode_len();
            let el = e.as_str().unicode_len();
            let k = n - el - 1;
            let ghost stem = nm.subrange(0, k as int);
            let ghost tar = seq!['.', 't', 'a', 'r'];
            if k > 4 && name.get_char(k - 4) == '.' && name.get_char(k - 3) == 't' && name.get_char(
                k - 2,
            ) == 'a' && name.get_char(k - 1) == 'r' {
                proof {
                    assert(stem.subrange(k - 4, k as int) =~= tar);
                    reveal_strlit("tar.");
                }
                Some(String::from_str("tar.").concat(e.as_str()))
            } else {
                proof {
                    if stem.len() > 4 && stem.subrange(stem.len() - 4, stem.len() as int) == tar {
                        assert(stem.subrange(k - 4, k as int)[0] == '.');
                        assert(stem.subrange(k - 4, k as int)[1] == 't');
                        assert(stem.subrange(k - 4, k as int)[2] == 'a');
                        assert(stem.subrange(k - 4, k as int)[3] == 'r');
                    }
                }
                Some(e)
            }
        },
    }
}

/// The text between the platform and the extension of a package name.
pub open spec fn package_marker() -> Seq<char> {
    seq!['.', 's', 'w', 'c', '-', 'p', 'k', 'g', '.']
}

/// The public name of a crate's package:
/// `{crate_name}.{display_form}.swc-pkg.{extension}`.
pub open spec fn package_name_spec(crate_name: Seq<char>, display: Seq<char>, ext: Seq<char>) -> Seq<
    char,
> {
    crate_name + seq!['.'] + display + package_marker() + ext
}

/// The name of a crate's package, for an archive with extension `ext`.
pub fn package_file_name(crate_name: &str, platform: &PlatformDetail, ext: &str) -> (r: String)
    ensures
        r@ == package_name_spec(crate_name@, platform.display_spec(), ext@),
{
    name_for(crate_name, platform.display_form(), ext)
}

fn name_for(crate_name: &str, display: &str, ext: &str) -> (r: String)
    ensures
        r@ == package_name_spec(crate_name@, display@, ext@),
{
    proof {
        reveal_strlit(".");
        reveal_strlit(".swc-pkg.");
    }
    String::from_str(crate_name).concat(".").concat(display).concat(".swc-pkg.").concat(ext)
}

/// What packaging `crate_name` yields from what its collaborators did: the
/// error of the first step that failed, with the crate's name, or the
/// package's files and its public copy in `out_dir` under the package name.
pub open spec fn step_result(
    crate_name: Seq<char>,
    display: Seq<char>,
    out_dir: Seq<char>,
    outcome: PackageOutcome,
    r: Result<PackageResult, PackageError>,
) -> bool {
    match outcome {
        PackageOutcome::DirectoryFailed { cause } => match r {
            Err(PackageError::PackageDirectoryFailed { crate_name: c, cause: k }) => c@
                == crate_name && k == cause,
            _ => false,
        },
        PackageOutcome::ArchiveFailed { package_dir, cause } => match r {
            Err(PackageError::ArchiveCreationFailed { crate_name: c, cause: k }) => c@
                == crate_name && k == cause,
            _ => false,
        },
        PackageOutcome::Archived { package_dir, archive_path } => match archive_extension_of(
            archive_path@,
        ) {
            None => match r {
                Err(PackageError::MalformedArchiveName { crate_name: c, archive_path: p }) => c@
                    == crate_name && p == archive_path,
                _ => false,
            },
            Some(ext) => match r {
                Ok(res) => {
                    &&& res.crate_name@ == crate_name
                    &&& res.package_dir == package_dir
                    &&& res.archive_path == archive_path
                    &&& res.final_path@ == join_spec(
                        out_dir,
                        package_name_spec(crate_name, display, ext),
                    )
                },
                _ => false,
            },
        },
    }
}

/// Packages `crate_name` from what its collaborators did. An archive whose
/// name has no extension is `MalformedArchiveName`.
pub fn package_step(
    crate_name: &str,
    platform: &PlatformDetail,
    out_dir: &str,
    outcome: PackageOutcome,
) -> (r: Result<PackageResult, PackageError>)
    ensures
        step_result(crate_name@, platform.display_spec(), out_dir@, outcome, r),
{
    step(crate_name, platform.display_form(), out_dir, outcome)
}

fn step(crate_name: &str, display: &str, out_dir: &str, outcome: PackageOutcome) -> (r: Result<
    PackageResult,
    PackageError,
>)
    ensures
        step_result(crate_name@, display@, out_dir@, outcome, r),
{
    let name = String::from_str(crate_name);
    match outcome {
        PackageOutcome::DirectoryFailed { cause } => Err(
            PackageError::PackageDirectoryFailed { crate_name: name, cause },
        ),
        PackageOutcome::ArchiveFailed { package_dir, cause } => Err(
            PackageError::ArchiveCreationFailed { crate_name: name, cause },
        ),
        PackageOutcome::Archived { package_dir, archive_path } => {
            match archive_extension(archive_path.as_str()) {
                None => Err(PackageError::MalformedArchiveName { crate_name: name, archive_path }),
                Some(ext) => {
                    let file = name_for(crate_name, display, ext.as_str());
                    let final_path = join(out_dir, file.as_str());
                    Ok(PackageResult { crate_name: name, package_dir, archive_path, final_path })
                },
            }
        },
    }
}

/// The package of a crate is where its archive's public copy goes: in
/// `out_dir`, under `{crate_name}.{display}.swc-pkg.{extension}`.
pub open spec fn packaged(res: PackageResult, out_dir: Seq<char>, display: Seq<char>) -> bool {
    &&& archive_extension_of(res.archive_path@) is Some
    &&& res.final_path@ == join_spec(
        out_dir,
        package_name_spec(
            res.crate_name@,
            display,
            archive_extension_of(res.archive_path@)->Some_0,
        ),
    )
}

/// The crate that a packaging error names.
pub open spec fn error_crate(e: PackageError) -> Seq<char> {
    match e {
        PackageError::PackageDirectoryFailed { crate_name, .. } => crate_name@,
        PackageError::ArchiveCreationFailed { crate_name, .. } => crate_name@,
        PackageError::MalformedArchiveName { crate_name, .. } => crate_name@,
        PackageError::ArchiveCopyFailed { crate_name, .. } => crate_name@,
    }
}

/// The packaging of a list of crates, one after the other, stopping at the
/// first that fails. For the crate at hand the caller reports what the
/// package builder and archiver did (`archived`), then performs the copy
/// that gave it back and reports how it went (`copied`).
pub struct PackageRun {
    crate_names: Vec<String>,
    display_form: String,
    out_dir: String,
    results: Vec<PackageResult>,
    pending: Option<PackageResult>,
    failure: Option<PackageError>,
}

impl PackageRun {
    /// The crates to package, in order.
    pub closed spec fn names(&self) -> Seq<Seq<char>> {
        self.crate_names@.map_values(|s: String| s@)
    }

    /// The display form of the platform the packages are for.
    pub closed spec fn display(&self) -> Seq<char> {
        self.display_form@
    }

    /// The directory the public copies of the packages go to.
    pub closed spec fn out_dir(&self) -> Seq<char> {
        self.out_dir@
    }

    /// The crates packaged so far.
    pub closed spec fn done(&self) -> Seq<PackageResult> {
        self.results@
    }

    /// The package of the crate at hand, archived and waiting for its copy.
    pub closed spec fn pending(&self) -> Option<PackageResult> {
        self.pending
    }

    /// The failure that stopped the run.
    pub closed spec fn failure(&self) -> Option<PackageError> {
        self.failure
    }

    /// The crates packaged so far are the first ones of the list, and the
    /// pending package or the failure belongs to the next one.
    pub open spec fn wf(&self) -> bool {
        &&& self.done().len() <= self.names().len()
        &&& forall|i: int|
            0 <= i < self.done().len() ==> (#[trigger] self.done()[i]).crate_name@
                == self.names()[i] && packaged(self.done()[i], self.out_dir(), self.display())
        &&& self.pending() is Some ==> {
            &&& packaged(self.pending()->Some_0, self.out_dir(), self.display())
            &&& self.failure() is None
            &&& self.done().len() < self.names().len()
            &&& self.pending()->Some_0.crate_name@ == self.names()[self.done().len() as int]
        }
        &&& self.failure() is Some ==> {
            &&& self.done().len() < self.names().len()
            &&& error_crate(self.failure()->Some_0) == self.names()[self.done().len() as int]
        }
    }

    /// A run over `crate_names` for `platform`, putting the public copies
    /// in `out_dir`, that has packaged nothing yet.
    pub fn new(crate_names: Vec<String>, platform: &PlatformDetail, out_dir: &str) -> (r:
        PackageRun)
        ensures
            r.wf(),
            r.names() == crate_names@.map_values(|s: String| s@),
            r.display() == platform.display_spec(),
            r.out_dir() == out_dir@,
            r.done().len() == 0,
            r.pending() is None,
            r.failure() is None,
    {
        PackageRun {
            crate_names,
            display_form: String::from_str(platform.display_form()),
            out_dir: String::from_str(out_dir),
            results: Vec::new(),
            pending: None,
            failure: None,
        }
    }

    /// The crate to package next: none once the run has failed, is waiting
    /// for a copy, or has packaged every crate.
    pub fn next_crate(&self) -> (r: Option<String>)
        requires
            self.wf(),
        ensures
            r is Some <==> (self.failure() is None && self.pending() is None && self.done().len()
                < self.names().len()),
            r is Some ==> r->Some_0@ == self.names()[self.done().len() as int],
    {
        if self.failure.is_none() && self.pending.is_none() && self.results.len()
            < self.crate_names.len() {
            Some(self.crate_names[self.results.len()].clone())
        } else {
            None
        }
    }

    /// Records what the collaborators did for the crate at hand. On success
    /// the package waits for its copy, which the result describes; on
    /// failure the run stops with the error.
    pub fn archived(&mut self, outcome: PackageOutcome) -> (r: Option<PackageResult>)
        requires
            old(self).wf(),
            old(self).failure() is None,
            old(self).pending() is None,
            old(self).done().len() < old(self).names().len(),
        ensures
            final(self).wf(),
            final(self).names() == old(self).names(),
            final(self).display() == old(self).display(),
            final(self).out_dir() == old(self).out_dir(),
            final(self).done() == old(self).done(),
            final(self).pending() == r,
            step_result(
                old(self).names()[old(self).done().len() as int],
                old(self).display(),
                old(self).out_dir(),
                outcome,
                match r {
                    Some(res) => Ok(res),
                    None => Err(final(self).failure()->Some_0),
                },
            ),
            r is Some <==> final(self).failure() is None,
    {
        let ghost names = self.names();
        let i = self.results.len();
        assert(self.crate_names@[i as int]@ == names[i as int]);
        match step(self.crate_names[i].as_str(), self.display_form.as_str(), self.out_dir.as_str(), outcome) {
            Ok(res) => {
                self.pending = Some(res.duplicate());
                Some(res)
            },
            Err(e) => {
                self.failure = Some(e);
                None
            },
        }
    }

    /// Records how the copy of the pending package went: on success the
    /// crate is packaged, on failure the run stops with `ArchiveCopyFailed`.
    pub fn copied(&mut self, error: Option<String>)
        requires
            old(self).wf(),
            old(self).pending() is Some,
        ensures
            final(self).wf(),
            final(self).names() == old(self).names(),
            final(self).display() == old(self).display(),
            final(self).out_dir() == old(self).out_dir(),
            final(self).pending() is None,
            match error {
                None => final(self).done() == old(self).done().push(old(self).pending()->Some_0)
                    && final(self).failure() is None,
                Some(cause) => final(self).done() == old(self).done() && match final(self).failure() {
                    Some(PackageError::ArchiveCopyFailed { crate_name, cause: c }) => crate_name@
                        == old(self).pending()->Some_0.crate_name@ && c == cause,
                    _ => false,
                },
            },
    {
        let pending = self.pending.take();
        match pending {
            Some(res) => match error {
                None => {
                    self.results.push(res);
                },
                Some(cause) => {
                    self.failure = Some(
                        PackageError::ArchiveCopyFailed { crate_name: res.crate_name, cause },
                    );
                },
            },
            None => {},
        }
    }

    /// The packages of every crate, in order, or the failure that stopped
    /// the run.
    pub fn finish(self) -> (r: Result<Vec<PackageResult>, PackageError>)
        requires
            self.wf(),
            self.pending() is None,
            self.failure() is Some || self.done().len() == self.names().len(),
        ensures
            match r {
                Ok(v) => {
                    &&& self.failure() is None
                    &&& v@ == self.done()
                    &&& v@.len() == self.names().len()
                    &&& forall|i: int|
                        0 <= i < v@.len() ==> (#[trigger] v@[i]).crate_name@ == self.names()[i]
                            && packaged(v@[i], self.out_dir(), self.display())
                },
                Err(e) => self.failure() == Some(e) && error_crate(e) == self.names()[self.done().len() as int],
            },
    {
        match self.failure {
            Some(e) => Err(e),
            None => Ok(self.results),
        }
    }
}

} // verus!
