use notes_backend::terminal::{
    fallback_shells, output_event_name, resolve_shell, TerminalError, TerminalManager, INITIAL_COLS,
    INITIAL_ROWS,
};

#[test]
fn new_manager_has_no_session() {
    let manager: TerminalManager<u32> = TerminalManager::new();
    assert!(manager.session(&"anything".to_string()).is_none());
}

#[test]
fn spawn_gives_fresh_uuid_and_initial_geometry() {
    let mut manager: TerminalManager<u32> = TerminalManager::new();
    let a = manager.spawn_terminal(1).unwrap();
    let b = manager.spawn_terminal(2).unwrap();
    assert_eq!(a.len(), 36);
    assert_ne!(a, b);
    let s = manager.session(&a).unwrap();
    assert_eq!(s.handle, 1);
    assert_eq!((s.cols, s.rows), (INITIAL_COLS, INITIAL_ROWS));
    assert_eq!((INITIAL_COLS, INITIAL_ROWS), (120, 30));
}

#[test]
fn write_before_close_reaches_session_and_after_close_fails() {
    let mut manager: TerminalManager<u32> = TerminalManager::new();
    let a = manager.spawn_terminal(7).unwrap();
    let b = manager.spawn_terminal(8).unwrap();
    let (h, bytes) = manager.write_terminal(&a, &"ls\n".to_string()).unwrap();
    assert_eq!(*h, 7);
    assert_eq!(bytes, b"ls\n".to_vec());
    assert_eq!(manager.close_terminal(&a), Some(7));
    assert_eq!(
        manager.write_terminal(&a, &"ls\n".to_string()).err(),
        Some(TerminalError::SessionNotFound)
    );
    let (h, _) = manager.write_terminal(&b, &"é".to_string()).unwrap();
    assert_eq!(*h, 8);
}

#[test]
fn write_sends_utf8_bytes() {
    let mut manager: TerminalManager<u32> = TerminalManager::new();
    let a = manager.spawn_terminal(1).unwrap();
    let (_, bytes) = manager.write_terminal(&a, &"é".to_string()).unwrap();
    assert_eq!(bytes, vec![0xC3, 0xA9]);
}

#[test]
fn close_is_idempotent() {
    let mut manager: TerminalManager<u32> = TerminalManager::new();
    let a = manager.spawn_terminal(3).unwrap();
    assert_eq!(manager.close_terminal(&a), Some(3));
    assert_eq!(manager.close_terminal(&a), None);
    assert_eq!(manager.close_terminal(&"unknown".to_string()), None);
}

#[test]
fn resize_records_geometry_of_known_session_only() {
    let mut manager: TerminalManager<u32> = TerminalManager::new();
    let a = manager.spawn_terminal(4).unwrap();
    assert_eq!(manager.resize_terminal(&a, 80, 24), Ok(()));
    let s = manager.session(&a).unwrap();
    assert_eq!((s.handle, s.cols, s.rows), (4, 80, 24));
    assert_eq!(
        manager.resize_terminal(&"nope".to_string(), 80, 24),
        Err(TerminalError::SessionNotFound)
    );
}

#[test]
fn configured_shell_wins_when_it_exists() {
    let r = resolve_shell(Some("/bin/fish".to_string()), true, &vec![true, true, true]);
    assert_eq!(r, Ok("/bin/fish".to_string()));
}

#[test]
fn missing_or_empty_configured_shell_falls_back_in_order() {
    let r = resolve_shell(Some("/bin/fish".to_string()), false, &vec![false, true, true]);
    assert_eq!(r, Ok("bash".to_string()));
    let r = resolve_shell(Some(String::new()), true, &vec![true, true, true]);
    assert_eq!(r, Ok("zsh".to_string()));
    let r = resolve_shell(None, false, &vec![false, false, true]);
    assert_eq!(r, Ok("sh".to_string()));
}

#[test]
fn no_shell_at_all_is_an_error() {
    let r = resolve_shell(None, false, &vec![false, false, false]);
    assert_eq!(r, Err(TerminalError::NoShell));
    assert_eq!(resolve_shell(None, true, &vec![]), Err(TerminalError::NoShell));
    assert_eq!(
        TerminalError::NoShell.message(),
        "No suitable shell found (tried: $SHELL, zsh, bash, sh)"
    );
    assert_eq!(TerminalError::SessionNotFound.message(), "Session not found");
}

#[test]
fn fallback_order_is_zsh_bash_sh() {
    assert_eq!(fallback_shells(), vec!["zsh".to_string(), "bash".to_string(), "sh".to_string()]);
}

#[test]
fn output_events_are_named_per_session() {
    assert_eq!(output_event_name(&"abc".to_string()), "terminal-output-abc");
}

#[test]
fn register_refuses_identifier_in_use() {
    let mut manager: TerminalManager<u32> = TerminalManager::new();
    assert_eq!(manager.register_session("s1".to_string(), 1), Ok("s1".to_string()));
    assert_eq!(manager.register_session("s1".to_string(), 2), Err(TerminalError::IdUnavailable));
    assert_eq!(manager.session(&"s1".to_string()).unwrap().handle, 1);
}

#[test]
fn spawn_on_empty_manager_succeeds() {
    let mut manager: TerminalManager<u32> = TerminalManager::new();
    for h in 0..50 {
        assert!(manager.spawn_terminal(h).is_ok());
    }
}
