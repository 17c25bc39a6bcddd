use vstd::prelude::*;

verus! {

/// Failures of the project store.
#[derive(Debug, Clone, Copy, PartialEq, Eq, Structural)]
pub enum StoreError {
    /// No project or alias matches the given name, alias or identifier.
    NotFound,
    /// An alias text is already taken, or a batch repeats one.
    Conflict,
    /// The primary alias of a project cannot go while other aliases remain.
    PrimaryGuardViolation,
    /// The stored rows do not form a consistent store.
    SchemaError,
    /// Every project identifier has been handed out.
    Full,
    /// A settings key that the store does not know.
    UnknownOption,
}

/// Failures while turning command-line input into an action.
#[derive(Debug, Clone, Copy, PartialEq, Eq, Structural)]
pub enum BuildError {
    /// Neither a subcommand nor a name to act on was given.
    IncorrectArgs,
    /// `set editor` was given without an editor name.
    UnspecifiedEditor,
    /// `set` was given an option it does not know.
    UnknownOption,
    /// A flag value other than `true`, `false`, `1` or `0`.
    InvalidValue,
}

} // verus!
