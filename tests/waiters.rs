use std::path::Path;
use wait4::file_waiter::FileWaiter;
use wait4::process_waiter::{ProcessWaiter, ProcessWaiterError};
use wait4::sleeper::Sleeper;
use wait4::steam_waiter::{
    create_download_finished_log_line, expand_default_path, expand_path_from_home, join_path,
    replace_tilde, SteamWaiter,
};

#[test]
fn expand_tilde_in_path() {
    let result = expand_path_from_home(Some("/home/user"));

    println!("Path: {}", result);
    assert!(Path::new(&result).starts_with(Path::new("/home")));
    assert!(Path::new(&result).ends_with(Path::new(".local/share/Steam/logs/content_log.txt")));
}

#[test]
fn default_path_lies_under_current_home() {
    let result = expand_default_path();
    assert!(Path::new(&result).ends_with(Path::new(".local/share/Steam/logs/content_log.txt")));
}

#[test]
fn expanded_path_text() {
    assert_eq!(
        expand_path_from_home(Some("/home/user")),
        "/home/user/./.local/share/Steam/logs/content_log.txt"
    );
    assert_eq!(expand_path_from_home(None), "");
}

#[test]
fn tilde_becomes_dot() {
    assert_eq!(replace_tilde("~/a~b"), "./a.b");
    assert_eq!(replace_tilde(""), "");
}

#[test]
fn join_path_follows_unix_rule() {
    assert_eq!(join_path("/home/u", "a/b"), "/home/u/a/b");
    assert_eq!(join_path("/home/u/", "a"), "/home/u/a");
    assert_eq!(join_path("", "a"), "a");
    assert_eq!(join_path("/home/u", "/etc"), "/etc");
}

#[test]
fn log_file_path_prefers_environment_value() {
    assert_eq!(SteamWaiter::log_file_path(Some("/tmp/log.txt")), "/tmp/log.txt");
    assert_eq!(SteamWaiter::log_file_path(None), expand_default_path());
    assert_eq!(SteamWaiter::env_var_log_file(), "STEAM_LOG_FILE");
    assert_eq!(
        SteamWaiter::default_log_file_path(),
        "~/.local/share/Steam/logs/content_log.txt"
    );
}

#[test]
fn finished_line_for_app() {
    assert_eq!(
        create_download_finished_log_line("570"),
        "AppID 570 state changed : Fully Installed"
    );
}

#[test]
fn steam_waiter_waits_until_finished_line_is_read() {
    let w = SteamWaiter::start("570", Sleeper::new(10), "/tmp/log.txt", true).ok().unwrap();
    assert_eq!(w.app_id(), "570");
    assert!(w.continue_waiting(None));
    assert!(w.continue_waiting(Some("")));
    assert!(w.continue_waiting(Some("AppID 57 state changed : Fully Installed\n")));
    assert!(w.continue_waiting(Some("AppID 5700 state changed : Fully Installed\n")));
    assert!(!w.continue_waiting(Some(
        "[x] AppID 570 state changed : Fully Installed,\n[y] other\n"
    )));
}

#[test]
fn steam_waiter_refuses_unopened_log() {
    let e = SteamWaiter::start("570", Sleeper::new(10), "/no/log.txt", false).err().unwrap();
    assert_eq!(e.message(), "Error reading file [/no/log.txt].");
}

#[test]
fn file_waiter_refuses_existing_path() {
    let exists = Path::new("/").exists();
    let e = FileWaiter::start("/", Sleeper::new(10), exists).err().unwrap();
    assert_eq!(e.message(), "File [/] already exists.");
}

#[test]
fn file_waiter_waits_for_missing_path() {
    let w = FileWaiter::start("/no/such/file", Sleeper::new(10), false).ok().unwrap();
    assert_eq!(w.file_path(), "/no/such/file");
    assert_eq!(w.get_sleeper().millis(), 10);
    assert!(w.continue_waiting(false));
    assert!(!w.continue_waiting(true));
}

#[test]
fn process_waiter_refuses_missing_process() {
    let e = ProcessWaiter::start("2147483647", Sleeper::new(10)).err().unwrap();
    assert_eq!(e, ProcessWaiterError::NoProcessExists(2147483647));
    assert_eq!(e.message(), "Process with Pid [2147483647] does not exist.");
}

#[test]
fn process_waiter_refuses_non_integer() {
    let e = ProcessWaiter::start("abc", Sleeper::new(10)).err().unwrap();
    assert_eq!(e, ProcessWaiterError::NotAValidInteger("abc".to_string()));
    assert_eq!(e.message(), "Pid [abc] is not a valid integer.");
    let e = ProcessWaiter::start("-7", Sleeper::new(10)).err().unwrap();
    assert_eq!(e.message(), "Process with Pid [-7] does not exist.");
}

#[test]
fn process_waiter_waits_for_running_process() {
    let mut w = ProcessWaiter::start("1", Sleeper::new(10)).ok().unwrap();
    assert_eq!(w.pid(), 1);
    assert_eq!(w.get_sleeper().millis(), 10);
    assert!(w.continue_waiting());
}

#[test]
fn process_waiter_confirm_running_follows_first_check() {
    let w = ProcessWaiter::start("1", Sleeper::new(10)).ok().unwrap();
    let w = w.confirm_running(true).ok().unwrap();
    assert_eq!(w.pid(), 1);
    let e = w.confirm_running(false).err().unwrap();
    assert_eq!(e, ProcessWaiterError::NoProcessExists(1));
}
