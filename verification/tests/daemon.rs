use airlock_v2::daemon::{
    already_running, greeting, old_pid, parse_mode, pid_path, Action, Daemon, Event, Mode, Task,
};
use airlock_v2::StateRoot;

#[test]
fn modes_from_the_command_line() {
    assert_eq!(parse_mode(Some("autocommit")), Ok(Mode::Autocommit));
    assert_eq!(parse_mode(Some("cleanup")), Ok(Mode::Cleanup));
    assert_eq!(
        parse_mode(Some("a\"b")),
        Err("usage: daemon <autocommit|cleanup>  (got: \"a\\\"b\")\n".to_string())
    );
    assert_eq!(parse_mode(None), Err("usage: daemon <autocommit|cleanup>\n".to_string()));
    assert_eq!(Mode::Autocommit.interval(), 15 * 60);
    assert_eq!(Mode::Cleanup.interval(), 8 * 60 * 60);
}

#[test]
fn pid_files() {
    let root = StateRoot::from_path("/state".to_string());
    assert_eq!(pid_path(&root, Mode::Cleanup), "/state/cleanup.pid");
    assert_eq!(old_pid(" 123\n"), Some(123));
    assert_eq!(old_pid("4294967296"), None);
    assert_eq!(old_pid("4294967295"), Some(4294967295));
    assert_eq!(old_pid("x"), None);
    assert_eq!(
        already_running(Mode::Autocommit, 7),
        "[daemon] autocommit already running pid=7\n"
    );
    assert_eq!(
        greeting(Mode::Autocommit, 7, &root),
        "[daemon:autocommit] running every 900s pid=7 state_root=/state\n"
    );
}

#[test]
fn a_scheduler_rests_between_passes() {
    let mut d = Daemon::new(Mode::Autocommit);
    assert_eq!(
        d.step(&Event::Started, false),
        Action { out: None, err: None, task: Task::RunPass }
    );
    let after = d.step(&Event::PassEnded(None), false);
    assert_eq!(after.out.as_deref(), Some("[daemon:autocommit] tick #1 done\n"));
    assert_eq!(after.task, Task::Sleep);
    let mut seconds = 0;
    loop {
        seconds += 1;
        match d.step(&Event::Slept { pid_file: true }, false).task {
            Task::Sleep => {}
            Task::RunPass => break,
            Task::Exit => panic!("nobody told it to stop"),
        }
    }
    assert_eq!(seconds, 900);
    assert_eq!(d.cycles, 2);
    let after = d.step(&Event::PassEnded(Some("broken".to_string())), false);
    assert_eq!(after.err.as_deref(), Some("[daemon:autocommit] tick #2 error: broken\n"));
    assert_eq!(after.out, None);
    assert_eq!(after.task, Task::Sleep);
}

#[test]
fn a_scheduler_stops() {
    let mut d = Daemon::new(Mode::Cleanup);
    d.step(&Event::Started, false);
    d.step(&Event::PassEnded(None), false);
    let last = d.step(&Event::Slept { pid_file: false }, false);
    assert_eq!(last.task, Task::Exit);
    assert_eq!(last.out.as_deref(), Some("[daemon:cleanup] exited gracefully after 1 cycles\n"));
    let mut d = Daemon::new(Mode::Cleanup);
    assert_eq!(d.step(&Event::Started, true).task, Task::Exit);
    d.step(&Event::Started, false);
    let last = d.step(&Event::PassEnded(None), true);
    assert_eq!(
        last.out.as_deref(),
        Some("[daemon:cleanup] tick #1 done\n[daemon:cleanup] exited gracefully after 1 cycles\n")
    );
    assert_eq!(last.task, Task::Exit);
}
