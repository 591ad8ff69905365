//! Package coordinates, where a package lives on disk, and when it is
//! fetched.
use vstd::prelude::*;

use crate::error::{PackageError, PackageErrorView, PackageSpec, PackageSpecView};
use crate::text::{copy_string, decimal, push_decimal, push_str};

verus! {

/// The registry that serves packages of the fetchable namespace.
pub const HOST: &'static str = "https://packages.typst.org";

/// The one namespace whose packages are fetched on demand.
pub const FETCHABLE_NAMESPACE: &'static str = "preview";

/// The characters of a string constant.
pub open spec fn lit(s: &str) -> Seq<char> {
    s@
}

/// `major.minor.patch`.
pub open spec fn version_text(p: PackageSpecView) -> Seq<char> {
    decimal(p.major as nat) + seq!['.'] + decimal(p.minor as nat) + seq!['.'] + decimal(
        p.patch as nat,
    )
}

/// `typst/packages/{namespace}/{name}/{version}`: where a package lies under a
/// data or cache directory.
pub open spec fn subdir_text(p: PackageSpecView) -> Seq<char> {
    lit("typst/packages/") + p.namespace + seq!['/'] + p.name + seq!['/'] + version_text(p)
}

/// `{base}/{subdir}`.
pub open spec fn package_dir_text(base: Seq<char>, p: PackageSpecView) -> Seq<char> {
    base + seq!['/'] + subdir_text(p)
}

/// `{host}/{namespace}/{name}-{version}.tar.gz`.
pub open spec fn url_text(p: PackageSpecView) -> Seq<char> {
    lit(HOST) + seq!['/'] + p.namespace + seq!['/'] + p.name + seq!['-'] + version_text(p)
        + lit(".tar.gz")
}

/// Whether packages of this namespace are fetched on demand.
pub open spec fn fetchable(p: PackageSpecView) -> bool {
    p.namespace == lit(FETCHABLE_NAMESPACE)
}

fn push_version(out: &mut String, spec: &PackageSpec)
    ensures
        final(out)@ == old(out)@ + version_text(spec@),
{
    push_decimal(out, spec.major as u64);
    push_str(out, ".");
    push_decimal(out, spec.minor as u64);
    push_str(out, ".");
    push_decimal(out, spec.patch as u64);
    proof {
        reveal_strlit(".");
    }
    assert(final(out)@ =~= old(out)@ + version_text(spec@));
}

impl PackageSpec {
    /// The version as `major.minor.patch`.
    pub fn version_string(&self) -> (r: String)
        ensures
            r@ == version_text(self@),
    {
        let mut out = String::new();
        push_version(&mut out, self);
        assert(out@ =~= version_text(self@));
        out
    }
}

/// The directory of a package under `base` (a data or cache directory).
pub fn package_dir(base: &str, spec: &PackageSpec) -> (r: String)
    ensures
        r@ == package_dir_text(base@, spec@),
{
    let mut out = base.to_owned();
    push_str(&mut out, "/typst/packages/");
    push_str(&mut out, spec.namespace.as_str());
    push_str(&mut out, "/");
    push_str(&mut out, spec.name.as_str());
    push_str(&mut out, "/");
    push_version(&mut out, spec);
    proof {
        reveal_strlit("/typst/packages/");
        reveal_strlit("typst/packages/");
        reveal_strlit("/");
    }
    assert(out@ =~= package_dir_text(base@, spec@));
    out
}

/// The URL of a package's archive on the registry.
pub fn package_url(spec: &PackageSpec) -> (r: String)
    ensures
        r@ == url_text(spec@),
{
    let mut out = HOST.to_owned();
    push_str(&mut out, "/");
    push_str(&mut out, spec.namespace.as_str());
    push_str(&mut out, "/");
    push_str(&mut out, spec.name.as_str());
    push_str(&mut out, "-");
    push_version(&mut out, spec);
    push_str(&mut out, ".tar.gz");
    proof {
        reveal_strlit("/");
        reveal_strlit("-");
    }
    assert(out@ =~= url_text(spec@));
    out
}

/// Whether packages of the coordinate's namespace are fetched on demand.
pub fn is_fetchable(spec: &PackageSpec) -> (r: bool)
    ensures
        r == fetchable(spec@),
{
    let s = spec.namespace.as_str();
    proof {
        reveal_strlit("preview");
    }
    if s.unicode_len() != 7 {
        return false;
    }
    let target = "preview";
    let mut i: usize = 0;
    while i < 7
        invariant
            s@.len() == 7,
            s@ == spec@.namespace,
            target@ == lit(FETCHABLE_NAMESPACE),
            target@.len() == 7,
            i <= 7,
            forall|j: int| 0 <= j < i ==> s@[j] == target@[j],
        decreases 7 - i,
    {
        if s.get_char(i) != target.get_char(i) {
            return false;
        }
        i = i + 1;
    }
    assert(s@ =~= target@);
    true
}

/// Where a package's files are to be read from.
pub enum PackageLocation {
    /// A directory that already holds the package.
    Local(String),
    /// The cache directory to fetch the package into.
    Fetch(String),
}

/// The mathematical value of a package location.
pub enum PackageLocationView {
    Local(Seq<char>),
    Fetch(Seq<char>),
}

impl View for PackageLocation {
    type V = PackageLocationView;

    open spec fn view(&self) -> PackageLocationView {
        match self {
            PackageLocation::Local(d) => PackageLocationView::Local(d@),
            PackageLocation::Fetch(d) => PackageLocationView::Fetch(d@),
        }
    }
}

/// The candidate directory of a package under a base directory, and whether
/// it exists.
pub struct Candidate {
    pub dir: String,
    pub exists: bool,
}

/// The decision of where a package comes from: the primary directory if it
/// holds the package, else the secondary, else a fetch into the secondary for
/// the fetchable namespace, else not found.
pub open spec fn location_spec(
    p: PackageSpecView,
    primary: Option<(Seq<char>, bool)>,
    secondary: Option<(Seq<char>, bool)>,
) -> Result<PackageLocationView, PackageErrorView> {
    if primary is Some && primary->Some_0.1 {
        Ok(PackageLocationView::Local(primary->Some_0.0))
    } else if secondary is Some && secondary->Some_0.1 {
        Ok(PackageLocationView::Local(secondary->Some_0.0))
    } else if secondary is Some && fetchable(p) {
        Ok(PackageLocationView::Fetch(secondary->Some_0.0))
    } else {
        Err(PackageErrorView::NotFound(p))
    }
}

/// The view of an optional candidate: its directory and whether it exists.
pub open spec fn candidate_view(c: &Option<Candidate>) -> Option<(Seq<char>, bool)> {
    match c {
        Some(c) => Some((c.dir@, c.exists)),
        None => None,
    }
}

/// A package present in the primary directory is read from there, whatever
/// the secondary directory holds: no fetch is planned.
pub proof fn lemma_primary_first(
    p: PackageSpecView,
    primary_dir: Seq<char>,
    secondary: Option<(Seq<char>, bool)>,
)
    ensures
        location_spec(p, Some((primary_dir, true)), secondary) == Ok::<
            PackageLocationView,
            PackageErrorView,
        >(PackageLocationView::Local(primary_dir)),
{
}

/// A failed unpack always leads to removing the target directory, and the
/// error that surfaces is `MalformedArchive` with the unpacker's message.
pub proof fn lemma_failed_unpack_cleans_up(m: Seq<char>)
    ensures
        unpack_step_spec(Err(m)) == UnpackStepView::CleanUpAndFail(
            PackageErrorView::MalformedArchive(Some(m)),
        ),
{
}

/// Decides where a package comes from, given its candidate directory under
/// the primary (data) and secondary (cache) directories, where those are
/// known.
pub fn locate_package(
    spec: &PackageSpec,
    primary: Option<Candidate>,
    secondary: Option<Candidate>,
) -> (r: Result<PackageLocation, PackageError>)
    ensures
        match r {
            Ok(l) => location_spec(spec@, candidate_view(&primary), candidate_view(&secondary))
                == Ok::<PackageLocationView, PackageErrorView>(l@),
            Err(e) => location_spec(spec@, candidate_view(&primary), candidate_view(&secondary))
                == Err::<PackageLocationView, PackageErrorView>(e@),
        },
{
    if let Some(c) = &primary {
        if c.exists {
            return Ok(PackageLocation::Local(copy_string(&c.dir)));
        }
    }
    if let Some(c) = &secondary {
        if c.exists {
            return Ok(PackageLocation::Local(copy_string(&c.dir)));
        }
        if is_fetchable(spec) {
            return Ok(PackageLocation::Fetch(copy_string(&c.dir)));
        }
    }
    Err(PackageError::NotFound(spec.duplicate()))
}

/// The error of a failed download: `NotFound` for an HTTP 404, else
/// `NetworkFailed` with the transport's message.
pub fn download_error(spec: &PackageSpec, status: Option<u16>, message: String) -> (r:
    PackageError)
    ensures
        status == Some(404u16) ==> r@ == PackageErrorView::NotFound(spec@),
        status != Some(404u16) ==> r@ == PackageErrorView::NetworkFailed(Some(message@)),
{
    match status {
        Some(404u16) => PackageError::NotFound(spec.duplicate()),
        _ => PackageError::NetworkFailed(Some(message)),
    }
}

/// What follows an attempt to unpack a fetched archive into its directory.
pub enum UnpackStep {
    /// The package is in place.
    Done,
    /// Remove the partly written directory, then fail with the error.
    CleanUpAndFail(PackageError),
}

/// The mathematical value of an unpack step.
pub enum UnpackStepView {
    Done,
    CleanUpAndFail(PackageErrorView),
}

impl View for UnpackStep {
    type V = UnpackStepView;

    open spec fn view(&self) -> UnpackStepView {
        match self {
            UnpackStep::Done => UnpackStepView::Done,
            UnpackStep::CleanUpAndFail(e) => UnpackStepView::CleanUpAndFail(e@),
        }
    }
}

/// The step after an unpack that succeeded or failed with a message.
pub open spec fn unpack_step_spec(unpacked: Result<(), Seq<char>>) -> UnpackStepView {
    match unpacked {
        Ok(()) => UnpackStepView::Done,
        Err(m) => UnpackStepView::CleanUpAndFail(PackageErrorView::MalformedArchive(Some(m))),
    }
}

/// The step after unpacking: on failure the directory is removed before the
/// `MalformedArchive` error surfaces.
pub fn after_unpack(unpacked: Result<(), String>) -> (r: UnpackStep)
    ensures
        r@ == unpack_step_spec(
            match unpacked {
                Ok(()) => Ok(()),
                Err(m) => Err(m@),
            },
        ),
{
    match unpacked {
        Ok(()) => UnpackStep::Done,
        Err(m) => UnpackStep::CleanUpAndFail(PackageError::MalformedArchive(Some(m))),
    }
}

/// The directory of a fetched package: the target, if the fetch succeeded and
/// the directory now exists; the fetch's error, or `NotFound`.
pub fn after_fetch(
    spec: &PackageSpec,
    dir: String,
    fetched: Result<(), PackageError>,
    exists: bool,
) -> (r: Result<String, PackageError>)
    ensures
        fetched matches Err(e) ==> r matches Err(e2) && e2@ == e@,
        fetched is Ok && exists ==> (r matches Ok(d) && d@ == dir@),
        fetched is Ok && !exists ==> (r matches Err(e) && e@ == PackageErrorView::NotFound(
            spec@,
        )),
{
    match fetched {
        Err(e) => Err(e),
        Ok(()) => if exists {
            Ok(dir)
        } else {
            Err(PackageError::NotFound(spec.duplicate()))
        },
    }
}

} // verus!
