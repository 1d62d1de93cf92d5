use wait4::aggregator::{ErrorKind, StartupError, WaiterCollection};
use wait4::file_waiter::{FileExistsError, FileWaiter};
use wait4::process_waiter::{ProcessWaiter, ProcessWaiterError};
use wait4::sleeper::Sleeper;
use wait4::steam_waiter::SteamWaiterError;

fn start_file(argument: &str, s: Sleeper, exists: bool) -> Result<String, StartupError> {
    FileWaiter::start(argument, s, exists)
        .map(|w| w.file_path().to_string())
        .map_err(StartupError::File)
}

fn start_process(argument: &str, s: Sleeper) -> Result<String, StartupError> {
    ProcessWaiter::start(argument, s)
        .map(|w| w.pid().to_string())
        .map_err(StartupError::Process)
}

#[test]
fn all_started_gives_every_handle_in_order() {
    let mut c: WaiterCollection<u32> = WaiterCollection::new(Sleeper::new(5));
    assert_eq!(c.sleeper(), Sleeper::new(5));
    c.add(vec![Ok(1), Ok(2)]);
    c.add(vec![]);
    c.add(vec![Ok(3)]);
    assert_eq!(c.wait_for_all().ok().unwrap(), vec![1, 2, 3]);
}

#[test]
fn no_arguments_waits_on_nothing() {
    let c: WaiterCollection<u32> = WaiterCollection::new(Sleeper::new(5));
    assert_eq!(c.wait_for_all().ok().unwrap(), Vec::<u32>::new());
}

#[test]
fn failures_are_reported_in_call_order() {
    let mut c: WaiterCollection<u32> = WaiterCollection::new(Sleeper::new(5));
    c.add(vec![
        Ok(1),
        Err(StartupError::Process(ProcessWaiterError::NotAValidInteger("x".to_string()))),
        Ok(2),
    ]);
    c.add(vec![
        Err(StartupError::File(FileExistsError::new("/a".to_string()))),
        Ok(3),
        Err(StartupError::Steam(SteamWaiterError::new("/log".to_string()))),
    ]);
    let e = c.wait_for_all().err().unwrap();
    assert_eq!(e.errors().len(), 3);
    assert_eq!(
        e.message(),
        "Pid [x] is not a valid integer.\nFile [/a] already exists.\nError reading file [/log]."
    );
}

#[test]
fn single_failure_message_has_no_line_break() {
    let mut c: WaiterCollection<u32> = WaiterCollection::new(Sleeper::new(5));
    c.add(vec![Err(StartupError::Process(ProcessWaiterError::NoProcessExists(-3)))]);
    let e = c.wait_for_all().err().unwrap();
    assert_eq!(e.message(), "Process with Pid [-3] does not exist.");
}

#[test]
fn missing_file_and_running_process_both_start() {
    let s = Sleeper::new(250);
    let mut c: WaiterCollection<String> = WaiterCollection::new(s);
    c.add(vec![start_process("1", c.sleeper())]);
    c.add(vec![start_file("/no/such/file/yet", c.sleeper(), false)]);
    let handles = c.wait_for_all().ok().unwrap();
    assert_eq!(handles, vec!["1".to_string(), "/no/such/file/yet".to_string()]);
}

#[test]
fn invalid_pid_gives_one_invalid_argument_entry() {
    let s = Sleeper::new(250);
    let mut c: WaiterCollection<String> = WaiterCollection::new(s);
    c.add(vec![start_process("abc", c.sleeper())]);
    c.add(vec![start_file("/no/such/file/yet", c.sleeper(), false)]);
    let e = c.wait_for_all().err().unwrap();
    assert_eq!(e.errors().len(), 1);
    assert!(matches!(
        &e.errors()[0],
        StartupError::Process(ProcessWaiterError::NotAValidInteger(v)) if v == "abc"
    ));
    assert_eq!(e.errors()[0].kind(), ErrorKind::InvalidArgument);
    assert_eq!(e.message(), "Pid [abc] is not a valid integer.");
    assert_eq!(e.errors()[0].message(), "Pid [abc] is not a valid integer.");
}

#[test]
fn startup_error_kinds() {
    let absent = [
        StartupError::Process(ProcessWaiterError::NoProcessExists(9)),
        StartupError::File(FileExistsError::new("/a".to_string())),
        StartupError::Steam(SteamWaiterError::new("/log".to_string())),
    ];
    for e in absent.iter() {
        assert_eq!(e.kind(), ErrorKind::ResourceAbsent);
    }
    let invalid = StartupError::Process(ProcessWaiterError::NotAValidInteger("p".to_string()));
    assert_eq!(invalid.kind(), ErrorKind::InvalidArgument);
}
