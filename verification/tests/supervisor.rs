use webthings_gateway::addon_manager::AddonStopped;
use webthings_gateway::error::{Error, ErrorKind};
use webthings_gateway::process_manager::{Launch, ProcessManager, StartAddon, StopAddon};
use webthings_gateway::text::{replace, split_ascii_whitespace, split_whitespace, to_ascii_lowercase};

fn start(id: &str, path: &str, template: &str) -> StartAddon {
    StartAddon(id.to_owned(), path.to_owned(), template.to_owned())
}

#[test]
fn replace_replaces_every_occurrence_from_the_left() {
    assert_eq!(replace("a{x}b{x}", "{x}", "1"), "a1b1");
    assert_eq!(replace("aaa", "aa", "b"), "ba");
    assert_eq!(replace("abc", "", "x"), "abc");
    assert_eq!(replace("", "a", "x"), "");
    assert_eq!(replace("héllo wörld", "ö", "oe"), "héllo woerld");
}

#[test]
fn split_ascii_whitespace_yields_the_runs() {
    assert_eq!(split_ascii_whitespace("  a\tb\n\nc  "), vec!["a", "b", "c"]);
    assert!(split_ascii_whitespace(" \r\n\t\u{c}").is_empty());
    assert_eq!(split_ascii_whitespace("a\u{a0}b\u{b}c"), vec!["a\u{a0}b\u{b}c"]);
}

#[test]
fn split_whitespace_knows_unicode_white_space() {
    assert_eq!(split_whitespace("a\u{a0}b\u{b}c\u{3000}d e"), vec!["a", "b", "c", "d", "e"]);
}

#[test]
fn lowercase_touches_ascii_capitals_only() {
    assert_eq!(to_ascii_lowercase("ABCxyz019Ä"), "abcxyz019Ä");
}

#[test]
fn start_substitutes_name_and_path_and_splits_the_command() {
    let mut manager = ProcessManager::new();
    let launch = manager
        .start_addon(start("mock", "/addons/mock", "{path}/bin --id {name}  -v"), 7, "/home")
        .unwrap();
    assert_eq!(
        launch,
        Launch {
            id: "mock".to_owned(),
            handle: 7,
            program: "/addons/mock/bin".to_owned(),
            args: vec!["--id".to_owned(), "mock".to_owned(), "-v".to_owned()],
            home: "/home".to_owned(),
        }
    );
    assert!(manager.is_running(&"mock".to_owned()));
    assert_eq!(manager.len(), 1);
}

#[test]
fn start_replaces_the_name_before_the_path() {
    let mut manager = ProcessManager::new();
    let launch = manager.start_addon(start("{path}", "/p", "run {name}"), 1, "/home").unwrap();
    assert_eq!(launch.program, "run");
    assert_eq!(launch.args, vec!["/p"]);
}

#[test]
fn start_refuses_a_second_process_for_one_id() {
    let mut manager = ProcessManager::new();
    manager.start_addon(start("mock", "/p", "./bin"), 1, "/home").unwrap();
    let again = manager.start_addon(start("mock", "/p", "./bin"), 2, "/home");
    assert_eq!(again, Err(Error::AlreadyRunning));
    assert_eq!(Error::AlreadyRunning.kind(), ErrorKind::AlreadyInState);
    assert_eq!(manager.len(), 1);
    assert_eq!(manager.stop_addon(StopAddon("mock".to_owned())), Ok(1));
}

#[test]
fn start_refuses_an_empty_command() {
    let mut manager = ProcessManager::new();
    let result = manager.start_addon(start("mock", "/p", " \t "), 1, "/home");
    assert_eq!(result, Err(Error::EmptyCommand));
    assert_eq!(Error::EmptyCommand.kind(), ErrorKind::Spawn);
    assert!(!manager.is_running(&"mock".to_owned()));
}

#[test]
fn stop_hands_out_the_handle_and_forgets_the_process() {
    let mut manager = ProcessManager::new();
    manager.start_addon(start("mock", "/p", "./bin"), 42, "/home").unwrap();
    assert_eq!(manager.stop_addon(StopAddon("mock".to_owned())), Ok(42));
    assert!(!manager.is_running(&"mock".to_owned()));
    assert_eq!(manager.stop_addon(StopAddon("mock".to_owned())), Err(Error::NotRunning));
}

#[test]
fn exit_forgets_only_the_process_that_ended() {
    let mut manager = ProcessManager::new();
    manager.start_addon(start("mock", "/p", "./bin"), 1, "/home").unwrap();
    manager.stop_addon(StopAddon("mock".to_owned())).unwrap();
    manager.start_addon(start("mock", "/p", "./bin"), 2, "/home").unwrap();
    assert_eq!(manager.exited("mock".to_owned(), 1), AddonStopped("mock".to_owned()));
    assert!(manager.is_running(&"mock".to_owned()));
    assert_eq!(manager.exited("mock".to_owned(), 2), AddonStopped("mock".to_owned()));
    assert!(!manager.is_running(&"mock".to_owned()));
}
