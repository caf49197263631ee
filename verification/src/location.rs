//! Where a board lives: a location descriptor (opaque to the core beyond
//! display) plus a scope tag telling a project-local board from the global
//! one. Probing the file system for a project board happens outside the core;
//! the decision between the two candidates is made here.

use vstd::prelude::*;

verus! {

/// Whether a board belongs to one project or to the user as a whole.
#[derive(Debug, Clone, Copy, PartialEq, Eq, Structural)]
pub enum BoardScope {
    Project,
    Global,
}

/// Where a board is persisted: a path rendered as text, and its scope.
#[derive(Debug, Clone)]
pub struct BoardLocation {
    pub path: String,
    pub scope: BoardScope,
}

impl BoardScope {
    /// The scope's display name.
    pub fn label(&self) -> (r: &'static str)
        ensures
            self is Project ==> r@ == "project"@,
            self is Global ==> r@ == "global"@,
    {
        match self {
            BoardScope::Project => "project",
            BoardScope::Global => "global",
        }
    }
}

/// Picks where the session's board lives: the project board found by walking
/// up from the working directory when there is one, else the global board.
pub fn locate_board(project_path: Option<String>, global_path: String) -> (r: BoardLocation)
    ensures
        project_path matches Some(p) ==> r.path == p && r.scope == BoardScope::Project,
        project_path is None ==> r.path == global_path && r.scope == BoardScope::Global,
{
    match project_path {
        Some(path) => BoardLocation { path, scope: BoardScope::Project },
        None => BoardLocation { path: global_path, scope: BoardScope::Global },
    }
}

} // verus!
