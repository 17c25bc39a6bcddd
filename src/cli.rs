use vstd::prelude::*;
use crate::db::is_flag_name;
use crate::errors::BuildError;

verus! {

/// What the command line asks for.
pub struct Cli {
    pub command: Option<Commands>,
    /// A project to launch, when no subcommand is given.
    pub project_name: Option<String>,
}

/// The operations of the command line.
pub enum Commands {
    /// Launch the project named by `alias`.
    Default { alias: String },
    /// Add a project or an alias.
    Add(AddCommand),
    /// Remove a project or an alias.
    Remove(RemoveCommand),
    /// Show one project and its aliases.
    View { alias: String },
    /// Show every project and its aliases.
    List,
    /// Change a setting.
    SetOption(SetCommand),
    /// Edit the manifest of a project.
    Edit { alias: String },
}

/// `add`: a project (by `--project` or positionally) or an alias.
pub struct AddCommand {
    pub project: Option<String>,
    pub alias: Option<String>,
    pub proj_name: Option<String>,
}

/// `remove`: a project (by `--project` or positionally) or an alias.
pub struct RemoveCommand {
    pub project: Option<String>,
    pub alias: Option<String>,
    pub proj_name: Option<String>,
}

/// `set <option> [value]`.
pub struct SetCommand {
    pub option: Option<String>,
    pub value: Option<String>,
}

pub struct DefaultCommand {
    pub alias: Option<String>,
}

pub struct ViewCommand {
    pub alias: String,
}

pub struct ListCommand {}

pub struct EditCommand {
    pub alias: String,
}

/// What an `add` or `remove` acts on.
pub enum Target {
    Project(String),
    Alias(String),
}

/// What a `set` asks for.
pub enum SetAction {
    /// Use this editor for manifests.
    Editor(String),
    /// Set the session-wrapper flag to the value, or flip it.
    Flag { name: String, value: Option<bool> },
}

impl Target {
    pub open spec fn is_project(&self, name: Seq<char>) -> bool {
        match self {
            Target::Project(p) => p@ == name,
            Target::Alias(_) => false,
        }
    }

    pub open spec fn is_alias(&self, name: Seq<char>) -> bool {
        match self {
            Target::Alias(a) => a@ == name,
            Target::Project(_) => false,
        }
    }
}

/// The target of an `add` or `remove`: the explicit project, else the
/// positional name as a project, else the alias.
fn target_of(
    project: &Option<String>,
    alias: &Option<String>,
    proj_name: &Option<String>,
) -> (r: Result<Target, BuildError>)
    ensures
        match (project, proj_name, alias) {
            (Some(p), _, _) => r matches Ok(t) && t.is_project(p@),
            (None, Some(p), _) => r matches Ok(t) && t.is_project(p@),
            (None, None, Some(a)) => r matches Ok(t) && t.is_alias(a@),
            (None, None, None) => r == Err::<Target, BuildError>(BuildError::IncorrectArgs),
        },
{
    if let Some(p) = project {
        Ok(Target::Project(p.clone()))
    } else if let Some(p) = proj_name {
        Ok(Target::Project(p.clone()))
    } else if let Some(a) = alias {
        Ok(Target::Alias(a.clone()))
    } else {
        Err(BuildError::IncorrectArgs)
    }
}

impl Cli {
    /// The operation asked for: the subcommand, else the launch of the named
    /// project.
    pub fn into_command(self) -> (r: Result<Commands, BuildError>)
        ensures
            match (self.command, self.project_name) {
                (Some(c), _) => r == Ok::<Commands, BuildError>(c),
                (None, Some(n)) => r matches Ok(Commands::Default { alias }) && alias == n,
                (None, None) => r == Err::<Commands, BuildError>(BuildError::IncorrectArgs),
            },
    {
        match self.command {
            Some(c) => Ok(c),
            None => match self.project_name {
                Some(n) => Ok(Commands::Default { alias: n }),
                None => Err(BuildError::IncorrectArgs),
            },
        }
    }
}

impl AddCommand {
    pub fn new(project: Option<String>, alias: Option<String>, proj_name: Option<String>) -> (r:
        Self)
        ensures
            r.project == project,
            r.alias == alias,
            r.proj_name == proj_name,
    {
        AddCommand { project, alias, proj_name }
    }

    /// What to add: the explicit project, else the positional name as a
    /// project, else the alias.
    pub fn target(&self) -> (r: Result<Target, BuildError>)
        ensures
            match (self.project, self.proj_name, self.alias) {
                (Some(p), _, _) => r matches Ok(t) && t.is_project(p@),
                (None, Some(p), _) => r matches Ok(t) && t.is_project(p@),
                (None, None, Some(a)) => r matches Ok(t) && t.is_alias(a@),
                (None, None, None) => r == Err::<Target, BuildError>(BuildError::IncorrectArgs),
            },
    {
        target_of(&self.project, &self.alias, &self.proj_name)
    }
}

impl RemoveCommand {
    pub fn new(project: Option<String>, alias: Option<String>, proj_name: Option<String>) -> (r:
        Self)
        ensures
            r.project == project,
            r.alias == alias,
            r.proj_name == proj_name,
    {
        RemoveCommand { project, alias, proj_name }
    }

    /// What to remove: the explicit project, else the positional name as a
    /// project, else the alias.
    pub fn target(&self) -> (r: Result<Target, BuildError>)
        ensures
            match (self.project, self.proj_name, self.alias) {
                (Some(p), _, _) => r matches Ok(t) && t.is_project(p@),
                (None, Some(p), _) => r matches Ok(t) && t.is_project(p@),
                (None, None, Some(a)) => r matches Ok(t) && t.is_alias(a@),
                (None, None, None) => r == Err::<Target, BuildError>(BuildError::IncorrectArgs),
            },
    {
        target_of(&self.project, &self.alias, &self.proj_name)
    }
}

impl ViewCommand {
    pub fn new(alias: String) -> (r: Self)
        ensures
            r.alias == alias,
    {
        ViewCommand { alias }
    }
}

/// The truth value that a flag's text spells: `true` or `1`, `false` or `0`.
pub open spec fn flag_value(s: Seq<char>) -> Option<bool> {
    if s == "true"@ || s == "1"@ {
        Some(true)
    } else if s == "false"@ || s == "0"@ {
        Some(false)
    } else {
        None
    }
}

/// Reads a flag value: `true` or `1`, `false` or `0`.
pub fn parse_flag(s: &String) -> (r: Option<bool>)
    ensures
        r == flag_value(s@),
{
    if *s == String::from_str("true") || *s == String::from_str("1") {
        Some(true)
    } else if *s == String::from_str("false") || *s == String::from_str("0") {
        Some(false)
    } else {
        None
    }
}

impl SetCommand {
    /// What the `set` asks for: an editor by name, or a value of the
    /// session-wrapper flag (none to flip it).
    pub fn action(&self) -> (r: Result<SetAction, BuildError>)
        ensures
            match self.option {
                None => r == Err::<SetAction, BuildError>(BuildError::IncorrectArgs),
                Some(o) => if o@ == "editor"@ {
                    match self.value {
                        None => r == Err::<SetAction, BuildError>(BuildError::UnspecifiedEditor),
                        Some(v) => r matches Ok(SetAction::Editor(e)) && e@ == v@,
                    }
                } else if !is_flag_name(o@) {
                    r == Err::<SetAction, BuildError>(BuildError::UnknownOption)
                } else {
                    match self.value {
                        None => r matches Ok(SetAction::Flag { name, value }) && name@ == o@
                            && value.is_none(),
                        Some(v) => match flag_value(v@) {
                            None => r == Err::<SetAction, BuildError>(BuildError::InvalidValue),
                            Some(b) => r matches Ok(SetAction::Flag { name, value }) && name@ == o@
                                && value == Some(b),
                        },
                    }
                },
            },
    {
        let o = match &self.option {
            None => return Err(BuildError::IncorrectArgs),
            Some(o) => o,
        };
        if *o == String::from_str("editor") {
            return match &self.value {
                None => Err(BuildError::UnspecifiedEditor),
                Some(v) => Ok(SetAction::Editor(v.clone())),
            };
        }
        if !(*o == String::from_str("uwsm") || *o == String::from_str("use_session_wrapper")) {
            return Err(BuildError::UnknownOption);
        }
        match &self.value {
            None => Ok(SetAction::Flag { name: o.clone(), value: None }),
            Some(v) => match parse_flag(v) {
                None => Err(BuildError::InvalidValue),
                Some(b) => Ok(SetAction::Flag { name: o.clone(), value: Some(b) }),
            },
        }
    }
}

} // verus!
