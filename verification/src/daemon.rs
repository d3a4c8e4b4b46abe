//! The long-running scheduler: one kind of pass, again and again, with a fixed rest in between.
//!
//! The caller runs the passes, sleeps, and watches the pid file; what to do next is decided here.
use crate::state;
use crate::state::{join_path, StateRoot};
use crate::text;
use crate::text::{parse_count, same, show, trim};
use crate::{AUTOCOMMIT_INTERVAL, CLEANUP_INTERVAL};
use vstd::prelude::*;

verus! {

/// The kind of pass that a scheduler runs.
#[derive(Debug, Clone, Copy, PartialEq, Eq, Structural)]
pub enum Mode {
    Autocommit,
    Cleanup,
}

impl Mode {
    /// The name of the mode.
    pub open spec fn text(self) -> Seq<char> {
        match self {
            Mode::Autocommit => "autocommit"@,
            Mode::Cleanup => "cleanup"@,
        }
    }

    /// The name of the mode.
    pub fn name(self) -> (r: &'static str)
        ensures
            r@ == self.text(),
    {
        match self {
            Mode::Autocommit => "autocommit",
            Mode::Cleanup => "cleanup",
        }
    }

    /// The rest between two passes, in seconds.
    pub open spec fn rest(self) -> u64 {
        match self {
            Mode::Autocommit => AUTOCOMMIT_INTERVAL,
            Mode::Cleanup => CLEANUP_INTERVAL,
        }
    }

    /// The rest between two passes, in seconds.
    pub fn interval(self) -> (r: u64)
        ensures
            r == self.rest(),
    {
        match self {
            Mode::Autocommit => AUTOCOMMIT_INTERVAL,
            Mode::Cleanup => CLEANUP_INTERVAL,
        }
    }

    /// The mode with the given name, if there is one.
    pub fn named(name: &str) -> (r: Option<Mode>)
        ensures
            match r {
                Some(mode) => mode.text() == name@,
                None => name@ != "autocommit"@ && name@ != "cleanup"@,
            },
    {
        if same(name, "autocommit") {
            Some(Mode::Autocommit)
        } else if same(name, "cleanup") {
            Some(Mode::Cleanup)
        } else {
            None
        }
    }
}

/// What `format!` writes for a text by `{:?}`: the text in quotes, with escapes.
pub uninterp spec fn debug_quoted(s: Seq<char>) -> Seq<char>;

/// Writes a text by `format!` and `{:?}`. The result is named.
#[verifier::external_body]
fn quote(s: &str) -> (r: String)
    ensures
        r@ == debug_quoted(s@),
{
    format!("{:?}", s)
}

/// What is printed of arguments that name no mode.
pub open spec fn usage_text(arg: Option<Seq<char>>) -> Seq<char> {
    match arg {
        Some(other) => "usage: daemon <autocommit|cleanup>  (got: "@ + debug_quoted(other)
            + ")\n"@,
        None => "usage: daemon <autocommit|cleanup>\n"@,
    }
}

/// The mode that the first argument names. Where there is none, the error is what to print.
pub fn parse_mode(arg: Option<&str>) -> (r: Result<Mode, String>)
    ensures
        match (arg, r) {
            (Some(name), Ok(mode)) => mode.text() == name@,
            (Some(name), Err(usage)) => name@ != "autocommit"@ && name@ != "cleanup"@ && usage@
                == usage_text(Some(name@)),
            (None, Ok(_)) => false,
            (None, Err(usage)) => usage@ == usage_text(None),
        },
{
    match arg {
        Some(name) => match Mode::named(name) {
            Some(mode) => Ok(mode),
            None => Err(
                "usage: daemon <autocommit|cleanup>  (got: ".to_owned().concat(
                    &quote(name),
                ).concat(")\n"),
            ),
        },
        None => Err("usage: daemon <autocommit|cleanup>\n".to_owned()),
    }
}

/// The pid file of a scheduler.
pub open spec fn pid_file(root: Seq<char>, mode: Mode) -> Seq<char> {
    state::joined(root, mode.text() + ".pid"@)
}

/// The pid file of a scheduler.
pub fn pid_path(state_root: &StateRoot, mode: Mode) -> (path: String)
    ensures
        path@ == pid_file(state_root@, mode),
{
    join_path(state_root.root(), &mode.name().to_owned().concat(".pid"))
}

/// The process that a pid file names; none where it holds no process number.
pub open spec fn pid_in(text: Seq<char>) -> Option<u32> {
    match text::parsed(text::trimmed(text)) {
        Some(n) if n <= u32::MAX => Some(n as u32),
        _ => None,
    }
}

/// The process that a pid file names; none where it holds no process number. Where that process
/// is alive there is a scheduler already.
pub fn old_pid(text: &str) -> (r: Option<u32>)
    ensures
        r == pid_in(text@),
        r == match text::parsed(text::trimmed(text@)) {
            Some(n) if n <= u32::MAX => Some(n as u32),
            _ => None,
        },
{
    match parse_count(trim(text)) {
        Some(n) => if n <= u32::MAX as usize {
            Some(n as u32)
        } else {
            None
        },
        None => None,
    }
}

/// What is printed where there is a scheduler already.
pub open spec fn running_text(mode: Mode, pid: u32) -> Seq<char> {
    "[daemon] "@ + mode.text() + " already running pid="@ + text::decimal(pid as int) + "\n"@
}

/// What is printed where there is a scheduler already.
pub fn already_running(mode: Mode, pid: u32) -> (line: String)
    ensures
        line@ == running_text(mode, pid),
        line@ == "[daemon] "@ + mode.text() + " already running pid="@ + text::decimal(pid as int)
            + "\n"@,
{
    "[daemon] ".to_owned().concat(mode.name()).concat(" already running pid=").concat(
        &show(pid as u64),
    ).concat("\n")
}

/// What is printed when a scheduler starts.
pub open spec fn greeting_text(mode: Mode, pid: u32, root: Seq<char>) -> Seq<char> {
    "[daemon:"@ + mode.text() + "] running every "@ + text::decimal(mode.rest() as int) + "s pid="@
        + text::decimal(pid as int) + " state_root="@ + root + "\n"@
}

/// What is printed when a scheduler starts.
pub fn greeting(mode: Mode, pid: u32, state_root: &StateRoot) -> (line: String)
    ensures
        line@ == greeting_text(mode, pid, state_root@),
        line@ == "[daemon:"@ + mode.text() + "] running every "@ + text::decimal(
            mode.rest() as int,
        ) + "s pid="@ + text::decimal(pid as int) + " state_root="@ + state_root@ + "\n"@,
{
    "[daemon:".to_owned().concat(mode.name()).concat("] running every ").concat(
        &show(mode.interval()),
    ).concat("s pid=").concat(&show(pid as u64)).concat(" state_root=").concat(
        state_root.root(),
    ).concat("\n")
}

/// What the caller has just done.
#[derive(Debug, PartialEq, Eq)]
pub enum Event {
    /// Nothing yet.
    Started,
    /// Run a pass, which failed for a reason or not.
    PassEnded(Option<String>),
    /// Slept for a second. The pid file is still there or not.
    Slept { pid_file: bool },
}

/// What the caller does next.
#[derive(Debug, Clone, Copy, PartialEq, Eq, Structural)]
pub enum Task {
    /// Run a pass.
    RunPass,
    /// Sleep for a second.
    Sleep,
    /// Remove the pid file and stop.
    Exit,
}

/// What is printed first, and what is done then.
#[derive(Debug, PartialEq, Eq)]
pub struct Action {
    pub out: Option<String>,
    pub err: Option<String>,
    pub task: Task,
}

/// A scheduler.
#[derive(Debug, PartialEq, Eq)]
pub struct Daemon {
    pub mode: Mode,
    /// The number of passes that were begun. It stops at the largest number that fits.
    pub cycles: u64,
    /// The seconds slept since the last pass.
    pub slept: u64,
}

/// One more, up to the largest number that fits.
pub open spec fn one_more(n: u64) -> u64 {
    if n < u64::MAX {
        (n + 1) as u64
    } else {
        n
    }
}

impl Daemon {
    /// Whether this is `before` with one more pass begun.
    pub open spec fn began(self, before: Daemon) -> bool {
        self == (Daemon { mode: before.mode, cycles: one_more(before.cycles), slept: 0 })
    }

    /// The task at the beginning of a round: a pass, unless the scheduler was told to stop.
    pub open spec fn round(stop: bool) -> Task {
        if stop {
            Task::Exit
        } else {
            Task::RunPass
        }
    }

    /// What is done after an event.
    pub open spec fn task_after(self, event: Event, stop: bool) -> Task {
        match event {
            Event::Started => Daemon::round(stop),
            Event::PassEnded(_) => if stop {
                Task::Exit
            } else {
                Task::Sleep
            },
            Event::Slept { pid_file } => if !pid_file || stop {
                Task::Exit
            } else if one_more(self.slept) < self.mode.rest() {
                Task::Sleep
            } else {
                Task::RunPass
            },
        }
    }

    /// The scheduler after an event, when `task` follows.
    pub open spec fn after(self, event: Event, task: Task) -> Daemon {
        match task {
            Task::RunPass => Daemon { mode: self.mode, cycles: one_more(self.cycles), slept: 0 },
            _ => Daemon {
                slept: if event is Slept {
                    one_more(self.slept)
                } else {
                    0
                },
                ..self
            },
        }
    }

    /// What is printed after an event, when `task` follows.
    pub open spec fn said_after(self, event: Event, task: Task) -> Option<Seq<char>> {
        let done = match event {
            Event::PassEnded(None) => "[daemon:"@ + self.mode.text() + "] tick #"@
                + text::decimal(self.cycles as int) + " done\n"@,
            _ => Seq::empty(),
        };
        if task is Exit {
            Some(
                done + "[daemon:"@ + self.mode.text() + "] exited gracefully after "@
                    + text::decimal(self.cycles as int) + " cycles\n"@,
            )
        } else if event == Event::PassEnded(None) {
            Some(done)
        } else {
            None
        }
    }

    /// What is complained of after an event.
    pub open spec fn complaint_after(self, event: Event) -> Option<Seq<char>> {
        match event {
            Event::PassEnded(Some(why)) => Some(
                "[daemon:"@ + self.mode.text() + "] tick #"@ + text::decimal(self.cycles as int)
                    + " error: "@ + why@ + "\n"@,
            ),
            _ => None,
        }
    }

    /// A scheduler that has not run a pass yet.
    pub fn new(mode: Mode) -> (r: Daemon)
        ensures
            r == (Daemon { mode, cycles: 0, slept: 0 }),
    {
        Daemon { mode, cycles: 0, slept: 0 }
    }

    fn tick(&self) -> (line: String)
        ensures
            line@ == "[daemon:"@ + self.mode.text() + "] tick #"@ + text::decimal(
                self.cycles as int,
            ),
    {
        "[daemon:".to_owned().concat(self.mode.name()).concat("] tick #").concat(
            &show(self.cycles),
        )
    }

    /// Decides what to do after an event. `stop` tells whether the scheduler was told to stop.
    pub fn step(&mut self, event: &Event, stop: bool) -> (action: Action)
        ensures
            action.task == old(self).task_after(*event, stop),
            action.out.deep_view() == old(self).said_after(*event, action.task),
            action.err.deep_view() == old(self).complaint_after(*event),
            !(action.task is Exit) ==> *final(self) == old(self).after(*event, action.task),
            match action.task {
                Task::RunPass => final(self).began(*old(self)),
                Task::Sleep => *final(self) == (Daemon {
                    slept: if *event is Slept {
                        one_more(old(self).slept)
                    } else {
                        0
                    },
                    ..*old(self)
                }),
                Task::Exit => final(self).mode == old(self).mode && final(self).cycles == old(
                    self,
                ).cycles,
            },
    {
        let mut out: Option<String> = None;
        let mut err: Option<String> = None;
        let mut said = String::new();
        let task = match event {
            Event::Started => if stop {
                Task::Exit
            } else {
                Task::RunPass
            },
            Event::PassEnded(failure) => {
                match failure {
                    Some(why) => {
                        err = Some(self.tick().concat(" error: ").concat(why).concat("\n"));
                    },
                    None => {
                        said = self.tick().concat(" done\n");
                        out = Some(said.clone());
                    },
                }
                self.slept = 0;
                if stop {
                    Task::Exit
                } else {
                    Task::Sleep
                }
            },
            Event::Slept { pid_file } => {
                if self.slept < u64::MAX {
                    self.slept = self.slept + 1;
                }
                if !*pid_file || stop {
                    Task::Exit
                } else if self.slept < self.mode.interval() {
                    Task::Sleep
                } else {
                    Task::RunPass
                }
            },
        };
        match task {
            Task::RunPass => {
                if self.cycles < u64::MAX {
                    self.cycles = self.cycles + 1;
                }
                self.slept = 0;
            },
            Task::Sleep => {},
            Task::Exit => {
                out = Some(
                    said.concat("[daemon:").concat(self.mode.name()).concat(
                        "] exited gracefully after ",
                    ).concat(&show(self.cycles)).concat(" cycles\n"),
                );
            },
        }
        Action { out, err, task }
    }
}

/// Between two passes the scheduler rests for the whole interval of its mode. After a pass it
/// does not begin another one at once. While it rests it goes on to the next pass exactly when the
/// last second of the rest is over, the pid file is still there and nobody told it to stop; while
/// it goes on resting, the rest is not over.
pub proof fn law_rest_between_passes(
    d: Daemon,
    failure: Option<String>,
    pid_file: bool,
    stop: bool,
)
    requires
        d.slept < d.mode.rest(),
    ensures
        !(d.task_after(Event::PassEnded(failure), stop) is RunPass),
        d.task_after(Event::Slept { pid_file }, stop) is RunPass <==> d.slept + 1 == d.mode.rest()
            && pid_file && !stop,
        d.task_after(Event::Slept { pid_file }, stop) is Sleep ==> d.slept + 1 < d.mode.rest(),
{
}

/// A scheduler whose pid file is gone, or that was told to stop, runs no further pass.
pub proof fn law_stop_is_final(d: Daemon, event: Event, stop: bool)
    requires
        stop || event == (Event::Slept { pid_file: false }),
    ensures
        d.task_after(event, stop) is Exit,
{
}

} // verus!
