//! A project's configuration and the cache of its last compiled document.
use vstd::prelude::*;

use crate::error::{FileError, FileErrorView};
use crate::text::{copy_string, push_str};
use crate::vpath::{components_of, FileIdView, VirtualPath};
use crate::world::{MainState, ProjectWorld};

verus! {

/// Where a project's configuration lies, relative to its root.
pub const PATH_PROJECT_CONFIG_FILE: &'static str = ".typster/project.json";

/// The file a project compiles when none is configured.
pub const DEFAULT_MAIN_FILE: &'static str = "main.typ";

/// Whether a path relative to a project root names its configuration file.
pub fn is_project_config_file(relative: &str) -> (r: bool)
    ensures
        r == (relative@ == PATH_PROJECT_CONFIG_FILE@),
{
    let a = crate::text::chars_of(relative);
    let b = crate::text::chars_of(PATH_PROJECT_CONFIG_FILE);
    if a.len() != b.len() {
        return false;
    }
    let mut i: usize = 0;
    while i < a.len()
        invariant
            a@ == relative@,
            b@ == PATH_PROJECT_CONFIG_FILE@,
            a@.len() == b@.len(),
            i <= a@.len(),
            forall|j: int| 0 <= j < i ==> a@[j] == b@[j],
        decreases a@.len() - i,
    {
        if a[i] != b[i] {
            return false;
        }
        i = i + 1;
    }
    assert(a@ =~= b@);
    true
}

/// Which format to use for diagnostics.
#[derive(Clone, Copy, Debug, PartialEq, Eq, PartialOrd, Ord, Hash, Structural)]
pub enum DiagnosticFormat {
    Human,
    Short,
}

impl DiagnosticFormat {
    /// The format's name: `human` or `short`.
    pub fn name(&self) -> (r: &'static str)
        ensures
            *self == DiagnosticFormat::Human ==> r@ == "human"@,
            *self == DiagnosticFormat::Short ==> r@ == "short"@,
    {
        match self {
            DiagnosticFormat::Human => "human",
            DiagnosticFormat::Short => "short",
        }
    }
}

/// A project's configuration; paths are written as strings.
pub struct ProjectConfig {
    pub input: Option<String>,
    pub root: Option<String>,
    pub main: Option<String>,
    pub font_paths: Vec<String>,
    pub ignore_system_fonts: bool,
    /// Seconds since the Unix epoch.
    pub creation_timestamp: Option<i64>,
    pub diagnostic_format: DiagnosticFormat,
    pub package_path: Option<String>,
    pub package_cache_path: Option<String>,
    pub jobs: Option<usize>,
    pub cert: Option<String>,
}

impl ProjectConfig {
    /// The configuration of a project without a configuration file, created
    /// at `now`: `main.typ` under the project directory is input and main,
    /// the directory is the root.
    pub fn for_directory(dir: &str, now: i64) -> (r: ProjectConfig)
        ensures
            r.input matches Some(p) && p@ == dir@ + "/"@ + DEFAULT_MAIN_FILE@,
            r.main matches Some(p) && p@ == dir@ + "/"@ + DEFAULT_MAIN_FILE@,
            r.root matches Some(p) && p@ == dir@,
            r.font_paths@.len() == 0,
            !r.ignore_system_fonts,
            r.creation_timestamp == Some(now),
            r.diagnostic_format == DiagnosticFormat::Human,
            r.package_path is None,
            r.package_cache_path is None,
            r.jobs is None,
            r.cert is None,
    {
        let mut main = dir.to_owned();
        push_str(&mut main, "/");
        push_str(&mut main, DEFAULT_MAIN_FILE);
        ProjectConfig {
            input: Some(copy_string(&main)),
            root: Some(dir.to_owned()),
            main: Some(main),
            font_paths: Vec::new(),
            ignore_system_fonts: false,
            creation_timestamp: Some(now),
            diagnostic_format: DiagnosticFormat::Human,
            package_path: None,
            package_cache_path: None,
            jobs: None,
            cert: None,
        }
    }

    /// Designates the configured main file as the world's compilation root;
    /// `NotSource` (and no change) where none is configured.
    pub fn apply_main(&self, world: &mut ProjectWorld) -> (r: Result<(), FileError>)
        ensures
            self.main matches Some(m) ==> (r is Ok && final(world).main@ == (FileIdView {
                package: None,
                vpath: components_of(m@),
            })),
            self.main is Some ==> final(world).main_state == MainState::Designated,
            final(world).slots == old(world).slots,
            final(world).root == old(world).root,
            self.main is None ==> (r matches Err(e) && e@ == FileErrorView::NotSource),
            self.main is None ==> *final(world) == *old(world),
    {
        match &self.main {
            Some(main) => {
                let vpath = VirtualPath::new(main.as_str());
                world.set_main_path(vpath);
                Ok(())
            },
            None => Err(FileError::NotSource),
        }
    }
}

impl Default for ProjectConfig {
    /// No paths, no fonts, human-readable diagnostics, created now.
    fn default() -> (r: ProjectConfig)
        ensures
            r.input is None && r.root is None && r.main is None,
            r.font_paths@.len() == 0,
            !r.ignore_system_fonts,
            r.creation_timestamp is Some,
            r.diagnostic_format == DiagnosticFormat::Human,
            r.package_path is None && r.package_cache_path is None,
            r.jobs is None && r.cert is None,
    {
        ProjectConfig {
            input: None,
            root: None,
            main: None,
            font_paths: Vec::new(),
            ignore_system_fonts: false,
            creation_timestamp: Some(crate::world::utc_now_secs()),
            diagnostic_format: DiagnosticFormat::Human,
            package_path: None,
            package_cache_path: None,
            jobs: None,
            cert: None,
        }
    }
}

/// The last compiled document of a project, if any.
pub struct ProjectCache<D> {
    pub document: Option<D>,
}

impl<D> ProjectCache<D> {
    /// A cache without a document.
    pub fn new() -> (r: ProjectCache<D>)
        ensures
            r.document is None,
    {
        ProjectCache { document: None }
    }
}

} // verus!
