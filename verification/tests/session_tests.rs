use wideval::config::Account;
use wideval::resolution::Resolution;
use wideval::session::{AccountScope, Command, Event, Session, Stage};
use wideval::types::AppState;

const READY: &str = "Ready. Configure settings and launch Valorant";

fn messages(session: &Session) -> Vec<String> {
    session
        .console_log()
        .iter()
        .map(|line| {
            let bytes = line.as_bytes();
            assert!(bytes.len() >= 11, "line too short: {:?}", line);
            assert_eq!(bytes[0], b'[');
            for i in [1usize, 2, 4, 5, 7, 8] {
                assert!(bytes[i].is_ascii_digit(), "no digit at {} in {:?}", i, line);
            }
            assert_eq!(bytes[3], b':');
            assert_eq!(bytes[6], b':');
            assert_eq!(bytes[9], b']');
            assert_eq!(bytes[10], b' ');
            line[11..].to_string()
        })
        .collect()
}

fn paths(items: &[&str]) -> Vec<String> {
    items.iter().map(|s| s.to_string()).collect()
}

fn patch_paths(command: &Command) -> (Vec<String>, Resolution) {
    match command {
        Command::PatchConfigs { paths, target } => (paths.clone(), *target),
        other => panic!("not a patch command: {:?}", other),
    }
}

fn revert_paths(command: &Command) -> Vec<String> {
    match command {
        Command::RevertConfigs { paths } => paths.clone(),
        other => panic!("not a revert command: {:?}", other),
    }
}

fn running_session(original: Option<Resolution>, scope: AccountScope) -> Session {
    let mut s = Session::new();
    s.start_session(Resolution::new(1280, 1024), original, scope);
    s.step(Event::Launched);
    s.step(Event::ProcessStarted);
    s.step(Event::ResolutionApplied { ok: true });
    assert_eq!(s.current_state(), AppState::Running);
    s
}

#[test]
fn new_session_is_idle_and_ready() {
    let s = Session::new();
    assert_eq!(s.current_state(), AppState::Idle);
    assert_eq!(s.stage(), None);
    assert!(s.can_launch());
    assert_eq!(s.status_message(), READY);
    assert!(s.console_log().is_empty());
    assert_eq!(s.target(), None);
    assert_eq!(s.original_resolution(), None);
    assert!(!s.applies_to_all_accounts());
    assert!(s.config_paths().is_empty());
}

#[test]
fn full_session_for_all_accounts() {
    let mut s = Session::new();
    let target = Resolution::new(2560, 1080);
    let original = Resolution::new(1920, 1080);
    let files = paths(&["C:\\a\\GameUserSettings.ini", "C:\\b\\GameUserSettings.ini"]);

    let commands =
        s.start_session(target, Some(original), AccountScope::AllAccounts { paths: files.clone() });
    assert_eq!(commands.len(), 2);
    assert_eq!(patch_paths(&commands[0]), (files.clone(), target));
    assert!(matches!(commands[1], Command::Launch));
    assert_eq!(s.current_state(), AppState::Idle);
    assert_eq!(s.stage(), Some(Stage::Launching));
    assert!(!s.can_launch());
    assert_eq!(s.status_message(), READY);
    assert_eq!(s.target(), Some(target));
    assert_eq!(s.original_resolution(), Some(original));
    assert!(s.applies_to_all_accounts());
    assert_eq!(s.config_paths(), files);
    assert_eq!(
        messages(&s),
        vec![
            "Starting with resolution 2560x1080",
            "Modifying 2 account configs",
            "Launching Valorant...",
        ]
    );

    let commands = s.step(Event::Launched);
    assert_eq!(commands.len(), 1);
    assert!(matches!(commands[0], Command::AwaitStart));
    assert_eq!(s.current_state(), AppState::WaitingForValorant);
    assert_eq!(s.status_message(), "Valorant is launching...");
    assert_eq!(messages(&s).last().unwrap(), "Waiting for Valorant process...");

    let commands = s.step(Event::ProcessStarted);
    assert_eq!(commands.len(), 1);
    assert!(matches!(commands[0], Command::SetResolution { resolution } if resolution == target));
    assert_eq!(s.current_state(), AppState::WaitingForValorant);
    assert_eq!(s.stage(), Some(Stage::Switching));
    assert_eq!(messages(&s).last().unwrap(), "Valorant detected! Changing resolution...");

    let commands = s.step(Event::ResolutionApplied { ok: true });
    assert_eq!(commands.len(), 1);
    assert!(matches!(commands[0], Command::AwaitExit));
    assert_eq!(s.current_state(), AppState::Running);
    assert_eq!(messages(&s).last().unwrap(), "Resolution changed to 2560x1080");

    let commands = s.step(Event::ProcessExited);
    assert_eq!(commands.len(), 2);
    assert!(matches!(commands[0], Command::SetResolution { resolution } if resolution == original));
    assert_eq!(revert_paths(&commands[1]), files);
    assert_eq!(s.current_state(), AppState::Running);
    assert_eq!(s.stage(), Some(Stage::Restoring));
    let log = messages(&s);
    assert_eq!(log[log.len() - 2], "Valorant closed. Restoring settings...");
    assert_eq!(log[log.len() - 1], "Resolution restored to 1920x1080");

    let commands = s.step(Event::Restored);
    assert!(commands.is_empty());
    assert_eq!(s.current_state(), AppState::Idle);
    assert_eq!(s.stage(), None);
    assert!(s.can_launch());
    assert_eq!(s.status_message(), READY);
    assert_eq!(s.target(), None);
    assert_eq!(s.original_resolution(), None);
    assert!(s.config_paths().is_empty());
    assert_eq!(
        messages(&s),
        vec![
            "Starting with resolution 2560x1080",
            "Modifying 2 account configs",
            "Launching Valorant...",
            "Waiting for Valorant process...",
            "Valorant detected! Changing resolution...",
            "Resolution changed to 2560x1080",
            "Valorant closed. Restoring settings...",
            "Resolution restored to 1920x1080",
            "Settings restored. Ready for next launch.",
        ]
    );
}

#[test]
fn session_for_one_account_without_known_original() {
    let mut s = Session::new();
    let target = Resolution::new(1440, 1080);
    let scope = AccountScope::Account { name: "abc-123".to_string(), path: "X:\\one.ini".to_string() };
    let commands = s.start_session(target, None, scope);
    assert!(!s.applies_to_all_accounts());
    assert_eq!(patch_paths(&commands[0]), (paths(&["X:\\one.ini"]), target));
    assert_eq!(
        messages(&s),
        vec![
            "Starting with resolution 1440x1080",
            "Modifying config for account: abc-123",
            "Launching Valorant...",
        ]
    );
    s.step(Event::Launched);
    s.step(Event::ProcessStarted);
    s.step(Event::ResolutionApplied { ok: false });
    assert_eq!(s.current_state(), AppState::Running);
    assert_eq!(messages(&s).last().unwrap(), "Failed to change resolution");
    let commands = s.step(Event::ProcessExited);
    assert_eq!(commands.len(), 1);
    assert_eq!(revert_paths(&commands[0]), paths(&["X:\\one.ini"]));
    assert_eq!(messages(&s).last().unwrap(), "Valorant closed. Restoring settings...");
    s.step(Event::Restored);
    assert_eq!(s.current_state(), AppState::Idle);
}

#[test]
fn session_without_account_patches_nothing() {
    let mut s = Session::new();
    let commands = s.start_session(Resolution::new(1024, 768), None, AccountScope::NoAccount);
    assert_eq!(patch_paths(&commands[0]), (Vec::<String>::new(), Resolution::new(1024, 768)));
    assert!(matches!(commands[1], Command::Launch));
    assert_eq!(messages(&s), vec!["Starting with resolution 1024x768", "Launching Valorant..."]);
}

#[test]
fn all_accounts_with_no_file_found_says_zero() {
    let mut s = Session::new();
    s.start_session(
        Resolution::new(1024, 768),
        None,
        AccountScope::AllAccounts { paths: Vec::new() },
    );
    assert_eq!(messages(&s)[1], "Modifying 0 account configs");
}

#[test]
fn failed_launch_stays_idle_and_reports() {
    let mut s = Session::new();
    s.start_session(
        Resolution::new(1280, 960),
        Some(Resolution::new(1920, 1080)),
        AccountScope::AllAccounts { paths: paths(&["f.ini"]) },
    );
    let commands = s.step(Event::LaunchFailed { reason: "Riot Client not found".to_string() });
    assert!(commands.is_empty());
    assert_eq!(s.current_state(), AppState::Idle);
    assert_eq!(s.stage(), None);
    assert!(s.can_launch());
    assert_eq!(s.status_message(), "Failed to launch Valorant: Riot Client not found");
    assert_eq!(messages(&s).last().unwrap(), "Launch failed: Riot Client not found");
    assert_eq!(s.target(), None);
    // a new launch may be triggered at once
    let commands = s.start_session(Resolution::new(1280, 960), None, AccountScope::NoAccount);
    assert_eq!(commands.len(), 2);
}

#[test]
fn trigger_is_ignored_while_a_session_is_in_progress() {
    let files = paths(&["a.ini"]);
    let events = [
        None,
        Some(Event::Launched),
        Some(Event::ProcessStarted),
        Some(Event::ResolutionApplied { ok: true }),
        Some(Event::ProcessExited),
    ];
    let mut s = Session::new();
    s.start_session(
        Resolution::new(1280, 1024),
        Some(Resolution::new(1920, 1080)),
        AccountScope::AllAccounts { paths: files.clone() },
    );
    for event in events {
        if let Some(e) = event {
            s.step(e);
        }
        let state = s.current_state();
        let stage = s.stage();
        let status = s.status_message();
        let log = s.console_log();
        let commands = s.start_session(
            Resolution::new(800, 600),
            None,
            AccountScope::Account { name: "x".to_string(), path: "other.ini".to_string() },
        );
        assert!(commands.is_empty());
        assert_eq!(s.current_state(), state);
        assert_eq!(s.stage(), stage);
        assert_eq!(s.status_message(), status);
        assert_eq!(s.console_log(), log);
        assert_eq!(s.target(), Some(Resolution::new(1280, 1024)));
        assert_eq!(s.original_resolution(), Some(Resolution::new(1920, 1080)));
        assert_eq!(s.config_paths(), files);
    }
}

#[test]
fn events_out_of_turn_change_nothing() {
    let mut s = Session::new();
    for event in [
        Event::Launched,
        Event::LaunchFailed { reason: "x".to_string() },
        Event::ProcessStarted,
        Event::ResolutionApplied { ok: true },
        Event::ProcessExited,
        Event::Restored,
        Event::Shutdown,
    ] {
        let commands = s.step(event);
        assert!(commands.is_empty());
        assert_eq!(s.current_state(), AppState::Idle);
        assert_eq!(s.stage(), None);
        assert_eq!(s.status_message(), READY);
        assert!(s.console_log().is_empty());
    }
    s.start_session(Resolution::new(1280, 1024), None, AccountScope::NoAccount);
    s.step(Event::Launched);
    for event in [
        Event::Launched,
        Event::LaunchFailed { reason: "x".to_string() },
        Event::ResolutionApplied { ok: true },
        Event::ProcessExited,
        Event::Restored,
        Event::Shutdown,
    ] {
        let log = s.console_log();
        let commands = s.step(event);
        assert!(commands.is_empty());
        assert_eq!(s.stage(), Some(Stage::AwaitingStart));
        assert_eq!(s.status_message(), "Valorant is launching...");
        assert_eq!(s.console_log(), log);
    }
}

#[test]
fn shutdown_while_running_restores_display_and_files() {
    let files = paths(&["a.ini", "b.ini"]);
    let original = Resolution::new(1920, 1080);
    let mut s =
        running_session(Some(original), AccountScope::AllAccounts { paths: files.clone() });
    let log = s.console_log();
    let commands = s.shutdown_hook();
    assert_eq!(commands.len(), 2);
    assert!(matches!(commands[0], Command::SetResolution { resolution } if resolution == original));
    assert_eq!(revert_paths(&commands[1]), files);
    assert_eq!(s.current_state(), AppState::Idle);
    assert_eq!(s.stage(), None);
    assert_eq!(s.console_log(), log);
    // the worker's late report finds nothing to do
    assert!(s.step(Event::ProcessExited).is_empty());
    assert!(s.step(Event::Restored).is_empty());
}

#[test]
fn shutdown_while_running_for_one_account_reverts_that_file() {
    let scope = AccountScope::Account { name: "n".to_string(), path: "only.ini".to_string() };
    let mut s = running_session(None, scope);
    let commands = s.shutdown_hook();
    assert_eq!(commands.len(), 1);
    assert_eq!(revert_paths(&commands[0]), paths(&["only.ini"]));
    assert_eq!(s.current_state(), AppState::Idle);
}

#[test]
fn shutdown_while_restoring_asks_for_restoration_again() {
    let mut s = running_session(
        Some(Resolution::new(1600, 900)),
        AccountScope::AllAccounts { paths: paths(&["a.ini"]) },
    );
    s.step(Event::ProcessExited);
    assert_eq!(s.current_state(), AppState::Running);
    let commands = s.step(Event::Shutdown);
    assert_eq!(commands.len(), 2);
    assert_eq!(s.current_state(), AppState::Idle);
}

#[test]
fn shutdown_before_the_game_runs_does_nothing() {
    let mut s = Session::new();
    assert!(s.shutdown_hook().is_empty());
    s.start_session(
        Resolution::new(1280, 1024),
        Some(Resolution::new(1920, 1080)),
        AccountScope::AllAccounts { paths: paths(&["a.ini"]) },
    );
    assert!(s.shutdown_hook().is_empty());
    assert_eq!(s.stage(), Some(Stage::Launching));
    s.step(Event::Launched);
    assert!(s.shutdown_hook().is_empty());
    assert_eq!(s.current_state(), AppState::WaitingForValorant);
    s.step(Event::ProcessStarted);
    assert!(s.shutdown_hook().is_empty());
    assert_eq!(s.stage(), Some(Stage::Switching));
}

#[test]
fn session_console_is_bounded_and_drops_oldest_first() {
    let mut s = Session::new();
    for i in 0..100 {
        s.log(format!("line {}", i));
    }
    assert_eq!(s.console_log().len(), 100);
    assert_eq!(messages(&s)[0], "line 0");
    s.log("line 100".to_string());
    let log = messages(&s);
    assert_eq!(log.len(), 100);
    assert_eq!(log[0], "line 1");
    assert_eq!(log[99], "line 100");
    s.start_session(Resolution::new(1280, 1024), None, AccountScope::NoAccount);
    let log = messages(&s);
    assert_eq!(log.len(), 100);
    assert_eq!(log[0], "line 3");
    assert_eq!(log[98], "Starting with resolution 1280x1024");
    assert_eq!(log[99], "Launching Valorant...");
    s.clear_console();
    assert!(s.console_log().is_empty());
    assert_eq!(s.stage(), Some(Stage::Launching));
}

#[test]
fn scope_selection_follows_the_settings() {
    let accounts = vec![
        Account { name: "first".to_string(), config_path: "1.ini".to_string() },
        Account { name: "second".to_string(), config_path: "2.ini".to_string() },
    ];
    match AccountScope::select(true, paths(&["1.ini", "2.ini"]), &accounts, 1) {
        AccountScope::AllAccounts { paths: p } => assert_eq!(p, paths(&["1.ini", "2.ini"])),
        other => panic!("unexpected scope {:?}", other),
    }
    match AccountScope::select(false, paths(&["1.ini", "2.ini"]), &accounts, 1) {
        AccountScope::Account { name, path } => {
            assert_eq!(name, "second");
            assert_eq!(path, "2.ini");
        }
        other => panic!("unexpected scope {:?}", other),
    }
    assert!(matches!(
        AccountScope::select(false, paths(&["1.ini"]), &accounts, 2),
        AccountScope::NoAccount
    ));
    assert!(matches!(
        AccountScope::select(false, Vec::new(), &Vec::new(), 0),
        AccountScope::NoAccount
    ));
}
