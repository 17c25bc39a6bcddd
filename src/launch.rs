use vstd::prelude::*;
use crate::records::{string_views, Settings};

verus! {

/// One program of a manifest, as decoded from its text.
pub struct Program {
    /// Display name.
    pub name: String,
    /// The executable to run.
    pub path: String,
    pub working_directory: Option<String>,
    pub args: Option<Vec<String>>,
    /// Lines written to the program's standard input once it runs.
    pub commands: Option<Vec<String>>,
    /// `null`, `inherit` or `log`; `inherit` when absent.
    pub output_mode: Option<String>,
    /// Environment variables set on top of the inherited environment.
    pub env: Option<Vec<(String, String)>>,
    pub auto_close: Option<bool>,
    pub set_active_window: Option<bool>,
    /// Settings of this program; the store's settings when absent.
    pub settings: Option<Settings>,
}

pub struct Programs {
    pub list: Vec<Program>,
}

/// A decoded manifest: its programs, in launch order.
pub struct ProjectConfig {
    pub programs: Programs,
}

/// Where a launched program's standard output and error go.
#[derive(Debug, Clone, Copy, PartialEq, Eq, Structural)]
pub enum OutputMode {
    /// Both streams are discarded.
    Null,
    /// Both streams are the launcher's own.
    Inherit,
    /// Both streams are captured.
    Log,
}

/// Everything needed to spawn one program.
pub struct LaunchPlan {
    /// The program's display name.
    pub name: String,
    /// The executable that is started.
    pub program: String,
    pub args: Vec<String>,
    pub working_directory: Option<String>,
    pub env: Vec<(String, String)>,
    pub output: OutputMode,
    /// The text written to standard input, one line per command.
    pub stdin_lines: Vec<String>,
}

pub open spec fn opt_view(o: Option<String>) -> Option<Seq<char>> {
    match o {
        Some(s) => Some(s@),
        None => None,
    }
}

pub open spec fn opt_strings(o: Option<Vec<String>>) -> Seq<Seq<char>> {
    match o {
        Some(v) => string_views(v@),
        None => seq![],
    }
}

pub open spec fn pair_views(v: Seq<(String, String)>) -> Seq<(Seq<char>, Seq<char>)> {
    v.map_values(|p: (String, String)| (p.0@, p.1@))
}

pub open spec fn opt_pairs(o: Option<Vec<(String, String)>>) -> Seq<(Seq<char>, Seq<char>)> {
    match o {
        Some(v) => pair_views(v@),
        None => seq![],
    }
}

pub open spec fn output_mode_of(m: Option<Seq<char>>) -> OutputMode {
    match m {
        Some(s) => if s == "null"@ {
            OutputMode::Null
        } else if s == "log"@ {
            OutputMode::Log
        } else {
            OutputMode::Inherit
        },
        None => OutputMode::Inherit,
    }
}

/// The program runs through the session-manager wrapper: its own settings
/// decide, else the store's.
pub open spec fn wraps(p: &Program, snapshot: Settings) -> bool {
    match p.settings {
        Some(s) => s.uwsm,
        None => snapshot.uwsm,
    }
}

/// `plan` is what program `p` is launched with, given the store's settings.
pub open spec fn is_plan_for(plan: &LaunchPlan, p: &Program, snapshot: Settings) -> bool {
    &&& plan.name@ == p.name@
    &&& plan.program@ == if wraps(p, snapshot) {
        "uwsm"@
    } else {
        p.path@
    }
    &&& string_views(plan.args@) == if wraps(p, snapshot) {
        seq!["app"@, "--"@, p.path@] + opt_strings(p.args)
    } else {
        opt_strings(p.args)
    }
    &&& opt_view(plan.working_directory) == opt_view(p.working_directory)
    &&& pair_views(plan.env@) == opt_pairs(p.env)
    &&& plan.output == output_mode_of(opt_view(p.output_mode))
    &&& string_views(plan.stdin_lines@) == opt_strings(p.commands).map_values(
        |c: Seq<char>| c + seq!['\n'],
    )
}

fn copy_strings(v: &Vec<String>) -> (r: Vec<String>)
    ensures
        string_views(r@) == string_views(v@),
{
    let mut r: Vec<String> = Vec::new();
    let mut i: usize = 0;
    while i < v.len()
        invariant
            i <= v.len(),
            string_views(r@) == string_views(v@).subrange(0, i as int),
        decreases v.len() - i,
    {
        let ghost prev = r@;
        r.push(v[i].clone());
        assert(string_views(r@) =~= string_views(prev).push(v@[i as int]@));
        assert(string_views(v@).subrange(0, i + 1) =~= string_views(v@).subrange(0, i as int).push(v@[i as int]@));
        i = i + 1;
    }
    assert(string_views(v@).subrange(0, i as int) =~= string_views(v@));
    r
}

fn copy_opt(o: &Option<String>) -> (r: Option<String>)
    ensures
        opt_view(r) == opt_view(*o),
{
    match o {
        Some(s) => Some(s.clone()),
        None => None,
    }
}

fn env_of(o: &Option<Vec<(String, String)>>) -> (r: Vec<(String, String)>)
    ensures
        pair_views(r@) == opt_pairs(*o),
{
    let mut r: Vec<(String, String)> = Vec::new();
    match o {
        Some(v) => {
            let mut i: usize = 0;
            while i < v.len()
                invariant
                    i <= v.len(),
                    pair_views(r@) == pair_views(v@).subrange(0, i as int),
                decreases v.len() - i,
            {
                let ghost prev = r@;
                let (k, x) = (v[i].0.clone(), v[i].1.clone());
                r.push((k, x));
                assert(pair_views(r@) =~= pair_views(prev).push((v@[i as int].0@, v@[i as int].1@)));
                assert(pair_views(v@).subrange(0, i + 1) =~= pair_views(v@).subrange(0, i as int).push(
                    (v@[i as int].0@, v@[i as int].1@),
                ));
                i = i + 1;
            }
            assert(pair_views(v@).subrange(0, i as int) =~= pair_views(v@));
        },
        None => {
            assert(pair_views(r@) =~= seq![]);
        },
    }
    r
}

fn output_of(m: &Option<String>) -> (r: OutputMode)
    ensures
        r == output_mode_of(opt_view(*m)),
{
    match m {
        Some(s) => {
            let null = String::from_str("null");
            let log = String::from_str("log");
            if *s == null {
                OutputMode::Null
            } else if *s == log {
                OutputMode::Log
            } else {
                OutputMode::Inherit
            }
        },
        None => OutputMode::Inherit,
    }
}

fn stdin_lines_of(o: &Option<Vec<String>>) -> (r: Vec<String>)
    ensures
        string_views(r@) == opt_strings(*o).map_values(|c: Seq<char>| c + seq!['\n']),
{
    let ghost line = |c: Seq<char>| c + seq!['\n'];
    let mut r: Vec<String> = Vec::new();
    match o {
        Some(v) => {
            let mut i: usize = 0;
            while i < v.len()
                invariant
                    i <= v.len(),
                    line == (|c: Seq<char>| c + seq!['\n']),
                    string_views(r@) == string_views(v@).subrange(0, i as int).map_values(line),
                decreases v.len() - i,
            {
                let ghost prev = r@;
                let mut s = v[i].clone();
                proof {
                    reveal_strlit("\n");
                    assert("\n"@ =~= seq!['\n']);
                }
                s.append("\n");
                r.push(s);
                assert(string_views(r@) =~= string_views(prev).push(line(v@[i as int]@)));
                assert(string_views(v@).subrange(0, i + 1).map_values(line) =~= string_views(v@).subrange(
                    0,
                    i as int,
                ).map_values(line).push(line(v@[i as int]@)));
                i = i + 1;
            }
            assert(string_views(v@).subrange(0, i as int) =~= string_views(v@));
        },
        None => {
            assert(string_views(r@) =~= seq![]);
        },
    }
    r
}

impl LaunchPlan {
    /// How program `p` is launched: through `uwsm app -- <path> <args>` when
    /// the session wrapper is on, else as `<path> <args>`.
    pub fn for_program(p: &Program, snapshot: Settings) -> (r: LaunchPlan)
        ensures
            is_plan_for(&r, p, snapshot),
    {
        let wrap = match p.settings {
            Some(s) => s.uwsm,
            None => snapshot.uwsm,
        };
        let own_args = match &p.args {
            Some(v) => copy_strings(v),
            None => Vec::new(),
        };
        assert(string_views(own_args@) == opt_strings(p.args)) by {
            if p.args.is_none() {
                assert(string_views(own_args@) =~= seq![]);
            }
        }
        let (program, args) = if wrap {
            let mut args: Vec<String> = Vec::new();
            args.push(String::from_str("app"));
            args.push(String::from_str("--"));
            args.push(p.path.clone());
            let ghost head = string_views(args@);
            assert(head =~= seq!["app"@, "--"@, p.path@]);
            let mut i: usize = 0;
            while i < own_args.len()
                invariant
                    i <= own_args.len(),
                    head == seq!["app"@, "--"@, p.path@],
                    string_views(args@) == head + string_views(own_args@).subrange(0, i as int),
                decreases own_args.len() - i,
            {
                let ghost prev = args@;
                args.push(own_args[i].clone());
                assert(string_views(args@) =~= string_views(prev).push(own_args@[i as int]@));
                assert(string_views(own_args@).subrange(0, i + 1) =~= string_views(own_args@).subrange(
                    0,
                    i as int,
                ).push(own_args@[i as int]@));
                i = i + 1;
            }
            assert(string_views(own_args@).subrange(0, i as int) =~= string_views(own_args@));
            (String::from_str("uwsm"), args)
        } else {
            (p.path.clone(), own_args)
        };
        LaunchPlan {
            name: p.name.clone(),
            program,
            args,
            working_directory: copy_opt(&p.working_directory),
            env: env_of(&p.env),
            output: output_of(&p.output_mode),
            stdin_lines: stdin_lines_of(&p.commands),
        }
    }
}

/// Where a launch stands.
#[derive(Debug, Clone, Copy, PartialEq, Eq, Structural)]
pub enum LaunchState {
    /// The program at this index is the next to spawn.
    Launching(usize),
    /// Every program was spawned.
    Done,
    /// The program at this index could not be spawned; later ones never are.
    Failed(usize),
}

impl LaunchState {
    /// The state after the current program was spawned (`spawned`) or failed
    /// to spawn, in a manifest of `count` programs.
    pub open spec fn advance(self, spawned: bool, count: nat) -> LaunchState {
        match self {
            LaunchState::Launching(i) => if !spawned {
                LaunchState::Failed(i)
            } else if i + 1 < count {
                LaunchState::Launching((i + 1) as usize)
            } else {
                LaunchState::Done
            },
            other => other,
        }
    }
}

/// A program that could not be spawned: its index in the manifest and its
/// display name.
pub struct LaunchError {
    pub index: usize,
    pub name: String,
}

/// The launch of one manifest: its plans, in order, and how far it got.
pub struct Launch {
    pub plans: Vec<LaunchPlan>,
    pub state: LaunchState,
}

impl Launch {
    pub open spec fn wf(&self) -> bool {
        match self.state {
            LaunchState::Launching(i) => i < self.plans.len(),
            LaunchState::Failed(i) => i < self.plans.len(),
            LaunchState::Done => true,
        }
    }

    /// Plans every program of the manifest with one snapshot of the store's
    /// settings, and starts at the first program.
    pub fn new(config: &ProjectConfig, snapshot: Settings) -> (r: Launch)
        ensures
            r.wf(),
            r.plans.len() == config.programs.list.len(),
            forall|i: int|
                0 <= i < r.plans.len() ==> is_plan_for(
                    &#[trigger] r.plans@[i],
                    &config.programs.list@[i],
                    snapshot,
                ),
            r.state == if config.programs.list.len() == 0 {
                LaunchState::Done
            } else {
                LaunchState::Launching(0)
            },
    {
        let list = &config.programs.list;
        let mut plans: Vec<LaunchPlan> = Vec::new();
        let mut i: usize = 0;
        while i < list.len()
            invariant
                i <= list.len(),
                plans.len() == i,
                forall|j: int| 0 <= j < i ==> is_plan_for(&#[trigger] plans@[j], &list@[j], snapshot),
            decreases list.len() - i,
        {
            plans.push(LaunchPlan::for_program(&list[i], snapshot));
            i = i + 1;
        }
        let state = if list.len() == 0 {
            LaunchState::Done
        } else {
            LaunchState::Launching(0)
        };
        Launch { plans, state }
    }

    /// The index of the program to spawn next, if any.
    pub fn current(&self) -> (r: Option<usize>)
        requires
            self.wf(),
        ensures
            match self.state {
                LaunchState::Launching(i) => r == Some(i) && i < self.plans.len(),
                _ => r.is_none(),
            },
    {
        match self.state {
            LaunchState::Launching(i) => Some(i),
            _ => None,
        }
    }

    /// Records whether the current program was spawned.
    pub fn record(&mut self, spawned: bool)
        requires
            old(self).wf(),
            old(self).state is Launching,
        ensures
            final(self).wf(),
            final(self).plans == old(self).plans,
            final(self).state == old(self).state.advance(spawned, old(self).plans.len() as nat),
    {
        if let LaunchState::Launching(i) = self.state {
            self.state = if !spawned {
                LaunchState::Failed(i)
            } else if i + 1 < self.plans.len() {
                LaunchState::Launching(i + 1)
            } else {
                LaunchState::Done
            };
        }
    }

    /// How a finished launch ended.
    pub fn outcome(&self) -> (r: Result<(), LaunchError>)
        requires
            self.wf(),
            !(self.state is Launching),
        ensures
            match self.state {
                LaunchState::Failed(i) => r matches Err(e) && e.index == i && e.name@
                    == self.plans@[i as int].name@,
                _ => r is Ok,
            },
    {
        match self.state {
            LaunchState::Failed(i) => Err(LaunchError { index: i, name: self.plans[i].name.clone() }),
            _ => Ok(()),
        }
    }
}

} // verus!
