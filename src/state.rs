use vstd::prelude::*;
use crate::models::PythonInstallation;

verus! {

/// The interpreter the user chose, as it is persisted.
#[derive(Clone, Debug)]
pub struct PythonSelection {
    pub path: String,
    pub version: String,
    pub is_venv: bool,
    pub venv_base: Option<String>,
}

/// The process-wide state: the chosen interpreter and where settings live.
#[derive(Clone, Debug)]
pub struct AppState {
    pub selected_python: Option<PythonSelection>,
    pub config_dir: String,
}

pub open spec fn same_opt(a: Option<String>, b: Option<String>) -> bool {
    match (a, b) {
        (Some(x), Some(y)) => x@ == y@,
        (None, None) => true,
        _ => false,
    }
}

fn copy_opt(o: &Option<String>) -> (r: Option<String>)
    ensures
        same_opt(r, *o),
{
    match o {
        Some(s) => Some(s.clone()),
        None => None,
    }
}

/// The record persisted for a chosen interpreter.
pub fn selection_of(inst: &PythonInstallation) -> (r: PythonSelection)
    ensures
        r.path@ == inst.path@,
        r.version@ == inst.version@,
        r.is_venv == inst.is_venv,
        same_opt(r.venv_base, inst.venv_base),
{
    PythonSelection {
        path: inst.path.clone(),
        version: inst.version.clone(),
        is_venv: inst.is_venv,
        venv_base: copy_opt(&inst.venv_base),
    }
}

/// The installation that a persisted selection stands for, with the package
/// manager's version as queried now.
pub fn installation_of(sel: &PythonSelection, pip_version: String) -> (r: PythonInstallation)
    ensures
        r.path@ == sel.path@,
        r.version@ == sel.version@,
        r.is_venv == sel.is_venv,
        same_opt(r.venv_base, sel.venv_base),
        r.pip_version@ == pip_version@,
{
    PythonInstallation {
        path: sel.path.clone(),
        version: sel.version.clone(),
        is_venv: sel.is_venv,
        venv_base: copy_opt(&sel.venv_base),
        pip_version,
    }
}

impl AppState {
    /// The state at start-up, with the selection loaded from storage if any.
    pub fn with_config_dir(config_dir: String, loaded: Option<PythonSelection>) -> (r: AppState)
        ensures
            r.config_dir@ == config_dir@,
            r.selected_python == loaded,
    {
        AppState { selected_python: loaded, config_dir }
    }

    /// Records `sel` as the chosen interpreter.
    pub fn select(&mut self, sel: PythonSelection)
        ensures
            final(self).selected_python == Some(sel),
            final(self).config_dir == old(self).config_dir,
    {
        self.selected_python = Some(sel);
    }
}

} // verus!
