use vstd::prelude::*;

verus! {

/// A stored project: its store-assigned identifier, its display name and the
/// manifest text, kept verbatim.
pub struct Project {
    pub id: i32,
    pub name: String,
    pub toml: String,
}

/// An alias row: the owning project's identifier, the alias text, and whether
/// it is the project's primary alias.
pub struct Alias {
    pub id: i32,
    pub alias: String,
    pub primary: bool,
}

/// The process-wide settings record.
#[derive(Debug, Clone, Copy, PartialEq, Eq, Structural)]
pub struct Settings {
    /// Launch programs through the session-manager wrapper.
    pub uwsm: bool,
}

/// What a project row holds, as mathematical values.
pub ghost struct ProjectView {
    pub id: int,
    pub name: Seq<char>,
    pub toml: Seq<char>,
}

/// What an alias row holds, as mathematical values.
pub ghost struct AliasView {
    pub id: int,
    pub alias: Seq<char>,
    pub primary: bool,
}

impl View for Project {
    type V = ProjectView;

    open spec fn view(&self) -> ProjectView {
        ProjectView { id: self.id as int, name: self.name@, toml: self.toml@ }
    }
}

impl View for Alias {
    type V = AliasView;

    open spec fn view(&self) -> AliasView {
        AliasView { id: self.id as int, alias: self.alias@, primary: self.primary }
    }
}

pub open spec fn project_views(ps: Seq<Project>) -> Seq<ProjectView> {
    ps.map_values(|p: Project| p@)
}

pub open spec fn alias_views(al: Seq<Alias>) -> Seq<AliasView> {
    al.map_values(|a: Alias| a@)
}

pub open spec fn string_views(ss: Seq<String>) -> Seq<Seq<char>> {
    ss.map_values(|s: String| s@)
}

impl Project {
    /// A copy of the row.
    pub fn copy(&self) -> (r: Project)
        ensures
            r@ == self@,
    {
        Project { id: self.id, name: self.name.clone(), toml: self.toml.clone() }
    }
}

impl Alias {
    /// A copy of the row.
    pub fn copy(&self) -> (r: Alias)
        ensures
            r@ == self@,
    {
        Alias { id: self.id, alias: self.alias.clone(), primary: self.primary }
    }
}

} // verus!
