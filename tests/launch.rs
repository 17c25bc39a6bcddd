use devinit::launch::{Launch, LaunchPlan, LaunchState, OutputMode, Program, Programs, ProjectConfig};
use devinit::records::Settings;

fn s(x: &str) -> String {
    x.to_string()
}

fn program(name: &str, path: &str) -> Program {
    Program {
        name: s(name),
        path: s(path),
        working_directory: None,
        args: None,
        commands: None,
        output_mode: None,
        env: None,
        auto_close: None,
        set_active_window: None,
        settings: None,
    }
}

#[test]
fn plan_runs_executable_directly() {
    let mut p = program("editor", "/usr/bin/vim");
    p.args = Some(vec![s("-n"), s("main.rs")]);
    p.working_directory = Some(s("/src"));
    p.env = Some(vec![(s("RUST_LOG"), s("debug"))]);
    let plan = LaunchPlan::for_program(&p, Settings { uwsm: false });
    assert_eq!(plan.name, "editor");
    assert_eq!(plan.program, "/usr/bin/vim");
    assert_eq!(plan.args, vec![s("-n"), s("main.rs")]);
    assert_eq!(plan.working_directory, Some(s("/src")));
    assert_eq!(plan.env, vec![(s("RUST_LOG"), s("debug"))]);
    assert_eq!(plan.output, OutputMode::Inherit);
    assert!(plan.stdin_lines.is_empty());
}

#[test]
fn plan_goes_through_session_wrapper() {
    let mut p = program("term", "kitty");
    p.args = Some(vec![s("--hold")]);
    let plan = LaunchPlan::for_program(&p, Settings { uwsm: true });
    assert_eq!(plan.program, "uwsm");
    assert_eq!(plan.args, vec![s("app"), s("--"), s("kitty"), s("--hold")]);
}

#[test]
fn program_settings_win_over_store_settings() {
    let mut p = program("term", "kitty");
    p.settings = Some(Settings { uwsm: false });
    let plan = LaunchPlan::for_program(&p, Settings { uwsm: true });
    assert_eq!(plan.program, "kitty");
    assert!(plan.args.is_empty());
}

#[test]
fn output_modes() {
    let mode = |m: Option<&str>| {
        let mut p = program("x", "x");
        p.output_mode = m.map(s);
        LaunchPlan::for_program(&p, Settings { uwsm: false }).output
    };
    assert_eq!(mode(Some("null")), OutputMode::Null);
    assert_eq!(mode(Some("inherit")), OutputMode::Inherit);
    assert_eq!(mode(Some("log")), OutputMode::Log);
    assert_eq!(mode(None), OutputMode::Inherit);
    assert_eq!(mode(Some("LOG")), OutputMode::Inherit);
}

#[test]
fn commands_become_stdin_lines() {
    let mut p = program("repl", "python3");
    p.commands = Some(vec![s("import os"), s("print(1)")]);
    let plan = LaunchPlan::for_program(&p, Settings { uwsm: false });
    assert_eq!(plan.stdin_lines, vec![s("import os\n"), s("print(1)\n")]);
}

#[test]
fn launch_runs_programs_in_order() {
    let config = ProjectConfig { programs: Programs { list: vec![program("a", "a"), program("b", "b")] } };
    let mut launch = Launch::new(&config, Settings { uwsm: false });
    assert_eq!(launch.plans.len(), 2);
    assert_eq!(launch.current(), Some(0));
    launch.record(true);
    assert_eq!(launch.current(), Some(1));
    launch.record(true);
    assert_eq!(launch.current(), None);
    assert_eq!(launch.state, LaunchState::Done);
    assert!(launch.outcome().is_ok());
}

#[test]
fn failed_first_spawn_stops_the_launch() {
    let config = ProjectConfig {
        programs: Programs { list: vec![program("bad", "/no/such/exe"), program("b", "b")] },
    };
    let mut launch = Launch::new(&config, Settings { uwsm: false });
    assert_eq!(launch.current(), Some(0));
    launch.record(false);
    assert_eq!(launch.current(), None);
    let err = launch.outcome().err().unwrap();
    assert_eq!(err.index, 0);
    assert_eq!(err.name, "bad");
}

#[test]
fn empty_manifest_is_done_at_once() {
    let config = ProjectConfig { programs: Programs { list: vec![] } };
    let launch = Launch::new(&config, Settings { uwsm: true });
    assert_eq!(launch.current(), None);
    assert!(launch.outcome().is_ok());
}

#[test]
fn one_settings_snapshot_for_the_whole_manifest() {
    let config = ProjectConfig { programs: Programs { list: vec![program("a", "a"), program("b", "b")] } };
    let launch = Launch::new(&config, Settings { uwsm: true });
    assert_eq!(launch.plans[0].program, "uwsm");
    assert_eq!(launch.plans[1].program, "uwsm");
}
