use vstd::prelude::*;
use crate::models::PythonInstallation;
use crate::platform::Platform;
use crate::text::{chars_of, split, split_chars, string_of, trim, trim_chars};

verus! {

/// Why a candidate interpreter was rejected.
#[derive(Clone, Copy, Debug, PartialEq, Eq, Structural)]
pub enum ValidationError {
    /// The path does not exist.
    NotFound,
    /// No execute permission bit is set.
    NotExecutable,
    /// The interpreter could not be run.
    InvocationFailed,
    /// The interpreter has no working package manager.
    PackageManagerUnavailable,
}

/// What was observed of a candidate interpreter, in the order of the checks.
#[derive(Clone, Debug)]
pub struct InterpreterProbe {
    /// Whether the path exists.
    pub exists: bool,
    /// The permission bits, where the platform has them.
    pub mode: Option<u32>,
    /// The standard output of the version query; none if it could not run.
    pub version_output: Option<String>,
    /// Whether a venv marker file sits beside the interpreter.
    pub marker_adjacent: bool,
    /// The venv base found for it, if any.
    pub venv_base: Option<String>,
    /// Whether the package manager could be started as a module.
    pub pip_runs: bool,
}

/// The conventional interpreter locations of each platform, in probing order.
pub open spec fn candidates(p: Platform) -> Seq<Seq<char>> {
    match p {
        Platform::Windows => seq![
            "C:\\Python312\\python.exe"@,
            "C:\\Python311\\python.exe"@,
            "C:\\Python310\\python.exe"@,
            "C:\\Program Files\\Python312\\python.exe"@,
            "C:\\Program Files\\Python311\\python.exe"@,
            "C:\\Program Files (x86)\\Python312\\python.exe"@,
        ],
        Platform::MacOs => seq![
            "/usr/local/bin/python3"@,
            "/usr/bin/python3"@,
            "/opt/homebrew/bin/python3"@,
            "/Library/Frameworks/Python.framework/Versions/Current/bin/python3"@,
        ],
        Platform::Linux => seq!["/usr/bin/python3"@, "/usr/local/bin/python3"@, "/usr/bin/python"@],
        Platform::Other => Seq::empty(),
    }
}

pub open spec fn strings_view(v: Seq<String>) -> Seq<Seq<char>> {
    v.map_values(|s: String| s@)
}

/// The conventional interpreter locations of `p`, in probing order.
pub fn candidate_paths(p: Platform) -> (r: Vec<String>)
    ensures
        strings_view(r@) == candidates(p),
{
    let v: Vec<String> = match p {
        Platform::Windows => vec![
            "C:\\Python312\\python.exe".to_owned(),
            "C:\\Python311\\python.exe".to_owned(),
            "C:\\Python310\\python.exe".to_owned(),
            "C:\\Program Files\\Python312\\python.exe".to_owned(),
            "C:\\Program Files\\Python311\\python.exe".to_owned(),
            "C:\\Program Files (x86)\\Python312\\python.exe".to_owned(),
        ],
        Platform::MacOs => vec![
            "/usr/local/bin/python3".to_owned(),
            "/usr/bin/python3".to_owned(),
            "/opt/homebrew/bin/python3".to_owned(),
            "/Library/Frameworks/Python.framework/Versions/Current/bin/python3".to_owned(),
        ],
        Platform::Linux => vec![
            "/usr/bin/python3".to_owned(),
            "/usr/local/bin/python3".to_owned(),
            "/usr/bin/python".to_owned(),
        ],
        Platform::Other => Vec::new(),
    };
    assert(strings_view(v@) =~= candidates(p));
    v
}

/// The version that a version query printed: its last space-separated word,
/// or `unknown` when that is empty.
pub open spec fn reported_version(out: Seq<char>) -> Seq<char> {
    let w = split(trim(out), ' ').last();
    if w.len() == 0 {
        "unknown"@
    } else {
        w
    }
}

/// The version named in an interpreter's `--version` output.
pub fn version_from_output(out: &str) -> (r: String)
    ensures
        r@ == reported_version(out@),
{
    let t = trim_chars(&chars_of(out));
    let words = split_chars(&t, ' ');
    proof { crate::text::lemma_split_nonempty(t@, ' '); }
    let w = &words[words.len() - 1];
    if w.len() == 0 {
        "unknown".to_owned()
    } else {
        string_of(w)
    }
}

/// The outcome of validating a candidate from what was observed of it.
pub open spec fn validation(path: Seq<char>, probe: InterpreterProbe) -> Result<
    (Seq<char>, bool, Option<Seq<char>>),
    ValidationError,
> {
    if !probe.exists {
        Err(ValidationError::NotFound)
    } else if probe.mode matches Some(m) && m & 0o111 == 0 {
        Err(ValidationError::NotExecutable)
    } else if probe.version_output is None {
        Err(ValidationError::InvocationFailed)
    } else if !probe.pip_runs {
        Err(ValidationError::PackageManagerUnavailable)
    } else {
        Ok((
            reported_version(probe.version_output->0@),
            probe.marker_adjacent,
            if probe.marker_adjacent {
                match probe.venv_base {
                    Some(b) => Some(b@),
                    None => None,
                }
            } else {
                None
            },
        ))
    }
}

/// Validates a candidate interpreter at `path` from what was observed of it.
/// The checks come in order: existence, permission, the version query, the
/// package manager. The package manager's version is left empty.
pub fn validate_probe(path: &str, probe: &InterpreterProbe) -> (r: Result<
    PythonInstallation,
    ValidationError,
>)
    ensures
        match validation(path@, *probe) {
            Err(e) => r == Err::<PythonInstallation, ValidationError>(e),
            Ok(v) => r matches Ok(inst) && {
                &&& inst.path@ == path@
                &&& inst.version@ == v.0
                &&& inst.is_venv == v.1
                &&& match inst.venv_base {
                    Some(b) => v.2 == Some(b@),
                    None => v.2 is None,
                }
                &&& inst.pip_version@.len() == 0
            },
        },
{
    if !probe.exists {
        return Err(ValidationError::NotFound);
    }
    match probe.mode {
        Some(m) => {
            if m & 0o111 == 0 {
                return Err(ValidationError::NotExecutable);
            }
        },
        None => {},
    }
    let version = match &probe.version_output {
        Some(out) => version_from_output(out.as_str()),
        None => {
            return Err(ValidationError::InvocationFailed);
        },
    };
    if !probe.pip_runs {
        return Err(ValidationError::PackageManagerUnavailable);
    }
    let venv_base = if probe.marker_adjacent {
        match &probe.venv_base {
            Some(b) => Some(b.clone()),
            None => None,
        }
    } else {
        None
    };
    Ok(
        PythonInstallation {
            path: path.to_owned(),
            version,
            is_venv: probe.marker_adjacent,
            venv_base,
            pip_version: String::new(),
        },
    )
}

/// The paths of `v`, in order.
pub open spec fn paths_of(v: Seq<PythonInstallation>) -> Seq<Seq<char>> {
    v.map_values(|i: PythonInstallation| i.path@)
}

/// The successful probes, keeping the first of each path, in order.
pub open spec fn unique_found(found: Seq<Option<PythonInstallation>>) -> Seq<PythonInstallation>
    decreases found.len(),
{
    if found.len() == 0 {
        Seq::empty()
    } else {
        let prev = unique_found(found.drop_last());
        match found.last() {
            Some(i) => if paths_of(prev).contains(i.path@) {
                prev
            } else {
                prev.push(i)
            },
            None => prev,
        }
    }
}

/// Gathers the candidates that validated, dropping repeated paths; fails
/// when none did.
pub fn collect_installations(found: Vec<Option<PythonInstallation>>) -> (r: Result<
    Vec<PythonInstallation>,
    String,
>)
    ensures
        match r {
            Ok(v) => v@ == unique_found(found@) && v@.len() > 0,
            Err(_) => unique_found(found@).len() == 0,
        },
{
    let mut out: Vec<PythonInstallation> = Vec::new();
    let mut rest = found;
    let ghost all = rest@;
    let mut i: usize = 0;
    let n = rest.len();
    assert(all.skip(0) =~= all);
    while i < n
        invariant
            n == all.len(),
            i <= n,
            rest@ == all.skip(i as int),
            out@ == unique_found(all.take(i as int)),
        decreases n - i,
    {
        let item = rest.remove(0);
        assert(item == all[i as int]);
        assert(rest@ =~= all.skip(i + 1));
        assert(all.take(i + 1).drop_last() =~= all.take(i as int));
        let ghost prev = out@;
        match item {
            Some(inst) => {
                let mut j: usize = 0;
                let mut dup = false;
                while j < out.len()
                    invariant
                        j <= out@.len(),
                        out@ == prev,
                        dup == exists|k: int| 0 <= k < j && (#[trigger] out@[k]).path@ == inst.path@,
                    decreases out@.len() - j,
                {
                    if out[j].path == inst.path {
                        dup = true;
                    }
                    j = j + 1;
                }
                assert(dup == paths_of(prev).contains(inst.path@)) by {
                    if paths_of(prev).contains(inst.path@) {
                        let k = choose|k: int| 0 <= k < paths_of(prev).len() && paths_of(prev)[k] == inst.path@;
                        assert(prev[k].path@ == inst.path@);
                    }
                    if dup {
                        let k = choose|k: int| 0 <= k < j && (#[trigger] out@[k]).path@ == inst.path@;
                        assert(paths_of(prev)[k] == inst.path@);
                    }
                }
                if !dup {
                    out.push(inst);
                }
            },
            None => {},
        }
        i = i + 1;
    }
    assert(all.take(n as int) =~= all);
    if out.len() == 0 {
        Err("No Python installations found".to_owned())
    } else {
        Ok(out)
    }
}

} // verus!
