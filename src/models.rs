use vstd::prelude::*;

verus! {

/// One entry of the package manager's listing of installed packages.
#[derive(Clone, Debug)]
pub struct InstalledPackage {
    pub name: String,
    pub version: String,
    pub location: String,
    pub summary: String,
}

/// A dependency declared by a project, with what was found installed.
#[derive(Clone, Debug)]
pub struct ProjectDependency {
    pub name: String,
    pub version_spec: String,
    pub status: DependencyStatus,
    pub installed_version: Option<String>,
}

#[derive(Clone, Copy, Debug, PartialEq, Eq, Structural)]
pub enum DependencyStatus {
    Installed,
    Missing,
    VersionMismatch,
}

/// A package operation as the user asked for it.
#[derive(Clone, Debug)]
pub struct PipCommand {
    pub action: String,
    pub package: String,
    pub version: Option<String>,
}

#[derive(Clone, Debug)]
pub struct PyPISearchResult {
    pub results: Vec<PyPIPackage>,
}

#[derive(Clone, Debug)]
pub struct PyPIPackage {
    pub name: String,
    pub version: String,
    pub summary: Option<String>,
    pub home_page: Option<String>,
    pub author: Option<String>,
    pub author_email: Option<String>,
    pub license: Option<String>,
}

/// Package metadata with its releases, keyed by version string.
#[derive(Clone, Debug)]
pub struct PyPIPackageInfo {
    pub info: PackageMetadata,
    pub releases: Vec<(String, Vec<ReleaseInfo>)>,
}

#[derive(Clone, Debug)]
pub struct PackageMetadata {
    pub name: String,
    pub version: String,
    pub summary: Option<String>,
    pub description: Option<String>,
    pub home_page: Option<String>,
    pub author: Option<String>,
    pub author_email: Option<String>,
    pub license: Option<String>,
    pub requires_python: Option<String>,
    pub classifiers: Vec<String>,
}

#[derive(Clone, Debug)]
pub struct ReleaseInfo {
    pub upload_time: Option<String>,
    pub url: String,
}

#[derive(Clone, Debug)]
pub struct DirectoryEntry {
    pub name: String,
    pub path: String,
    pub is_dir: bool,
    pub is_python: bool,
    pub is_venv: bool,
}

#[derive(Clone, Debug)]
pub struct PipLogEntry {
    pub level: String,
    pub message: String,
    pub timestamp: String,
}

/// A validated interpreter. Paths are held as strings.
#[derive(Clone, Debug)]
pub struct PythonInstallation {
    pub path: String,
    pub version: String,
    pub is_venv: bool,
    pub venv_base: Option<String>,
    pub pip_version: String,
}

/// A virtual environment found under a project directory.
#[derive(Clone, Debug)]
pub struct VenvInfo {
    pub path: String,
    pub python_path: String,
    pub home: String,
    pub prompt: Option<String>,
}

} // verus!
