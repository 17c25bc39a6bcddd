use devinit::cli::{
    parse_flag, AddCommand, Cli, Commands, RemoveCommand, SetAction, SetCommand, Target, ViewCommand,
};
use devinit::errors::BuildError;
use devinit::text::parse_alias_list;

fn s(x: &str) -> String {
    x.to_string()
}

#[test]
fn alias_list_is_split_and_trimmed() {
    assert_eq!(parse_alias_list(&s(" a , bb,c ")), vec![s("a"), s("bb"), s("c")]);
    assert_eq!(parse_alias_list(&s("solo")), vec![s("solo")]);
    assert_eq!(parse_alias_list(&s("a,,b")), vec![s("a"), s(""), s("b")]);
    assert_eq!(parse_alias_list(&s("\tx y\n")), vec![s("x y")]);
    assert_eq!(parse_alias_list(&s("")), vec![s("")]);
}

#[test]
fn add_target_precedence() {
    let t = AddCommand::new(Some(s("p")), None, Some(s("q"))).target();
    assert!(matches!(t, Ok(Target::Project(ref n)) if n == "p"));
    let t = AddCommand::new(None, Some(s("a")), Some(s("q"))).target();
    assert!(matches!(t, Ok(Target::Project(ref n)) if n == "q"));
    let t = AddCommand::new(None, Some(s("a")), None).target();
    assert!(matches!(t, Ok(Target::Alias(ref n)) if n == "a"));
    assert!(matches!(AddCommand::new(None, None, None).target(), Err(BuildError::IncorrectArgs)));
}

#[test]
fn remove_target_precedence() {
    let t = RemoveCommand::new(None, Some(s("a")), None).target();
    assert!(matches!(t, Ok(Target::Alias(ref n)) if n == "a"));
    let t = RemoveCommand::new(Some(s("p")), None, None).target();
    assert!(matches!(t, Ok(Target::Project(ref n)) if n == "p"));
    assert!(matches!(RemoveCommand::new(None, None, None).target(), Err(BuildError::IncorrectArgs)));
}

#[test]
fn bare_name_launches_project() {
    let cli = Cli { command: None, project_name: Some(s("web")) };
    assert!(matches!(cli.into_command(), Ok(Commands::Default { ref alias }) if alias == "web"));
    let cli = Cli { command: Some(Commands::List), project_name: Some(s("web")) };
    assert!(matches!(cli.into_command(), Ok(Commands::List)));
    let cli = Cli { command: None, project_name: None };
    assert!(matches!(cli.into_command(), Err(BuildError::IncorrectArgs)));
}

#[test]
fn view_command_keeps_alias() {
    assert_eq!(ViewCommand::new(s("w")).alias, "w");
}

#[test]
fn flag_values() {
    assert_eq!(parse_flag(&s("true")), Some(true));
    assert_eq!(parse_flag(&s("1")), Some(true));
    assert_eq!(parse_flag(&s("false")), Some(false));
    assert_eq!(parse_flag(&s("0")), Some(false));
    assert_eq!(parse_flag(&s("yes")), None);
}

#[test]
fn set_actions() {
    let set = |o: Option<&str>, v: Option<&str>| SetCommand { option: o.map(s), value: v.map(s) }.action();
    assert!(matches!(set(None, None), Err(BuildError::IncorrectArgs)));
    assert!(matches!(set(Some("editor"), None), Err(BuildError::UnspecifiedEditor)));
    assert!(matches!(set(Some("editor"), Some("vim")), Ok(SetAction::Editor(ref e)) if e == "vim"));
    assert!(matches!(set(Some("uwsm"), None), Ok(SetAction::Flag { value: None, .. })));
    assert!(matches!(set(Some("uwsm"), Some("1")), Ok(SetAction::Flag { value: Some(true), .. })));
    assert!(matches!(set(Some("uwsm"), Some("maybe")), Err(BuildError::InvalidValue)));
    assert!(matches!(set(Some("colour"), Some("1")), Err(BuildError::UnknownOption)));
}
