use myssh::models::TerminalSize;
use myssh::registry::Registry;
use myssh::shell::{disconnect_session, JumpConnection, ShellSession, ShellState};

#[test]
fn a_fresh_session_is_connected_and_quiet() {
    let s = ShellSession::new("sid-1".to_string(), None);
    assert_eq!(s.state, ShellState::Connected);
    assert!(s.pending_output.is_empty());
    assert!(s.jump_connection_id.is_none());
}

#[test]
fn writing_before_open_is_a_noop_and_does_not_fail() {
    let s = ShellSession::new("sid-1".to_string(), None);
    // not open yet: nothing is forwarded, and nothing panics or errors
    assert!(!s.write(b"ls -la\n"));
    assert!(!s.resize(TerminalSize { cols: 120, rows: 40 }));
}

#[test]
fn open_requests_a_256_color_terminal_of_the_given_size() {
    let s = ShellSession::new("sid-1".to_string(), None);
    let req = s
        .begin_open(TerminalSize { cols: 100, rows: 30 })
        .expect("open from connected");
    assert_eq!(req.term, "xterm-256color");
    assert_eq!(req.cols, 100);
    assert_eq!(req.rows, 30);
}

#[test]
fn refused_open_leaves_the_session_connected() {
    let mut s = ShellSession::new("sid-1".to_string(), None);
    s.begin_open(TerminalSize::default()).expect("open");
    s.complete_open(false);
    assert_eq!(s.state, ShellState::Connected);
    // the caller may simply try again
    assert!(s.begin_open(TerminalSize::default()).is_ok());
}

#[test]
fn accepted_open_makes_writes_flow() {
    let mut s = ShellSession::new("sid-1".to_string(), None);
    s.begin_open(TerminalSize::default()).expect("open");
    s.complete_open(true);
    assert_eq!(s.state, ShellState::ShellOpen);
    assert!(s.write(b"echo hi\n"));
    assert!(s.resize(TerminalSize { cols: 90, rows: 25 }));
    // a second open is refused without breaking the session
    assert!(s.begin_open(TerminalSize::default()).is_err());
    assert_eq!(s.state, ShellState::ShellOpen);
}

#[test]
fn output_is_delivered_in_arrival_order() {
    let mut s = ShellSession::new("sid-1".to_string(), None);
    s.push_output(b"first".to_vec());
    s.push_output(b"second".to_vec());
    s.push_output(b"third".to_vec());
    let drained = s.take_output();
    assert_eq!(drained, vec![b"first".to_vec(), b"second".to_vec(), b"third".to_vec()]);
    assert!(s.take_output().is_empty());
}

#[test]
fn close_is_terminal() {
    let mut s = ShellSession::new("sid-1".to_string(), None);
    s.close();
    assert_eq!(s.state, ShellState::Closed);
    assert!(!s.write(b"x"));
    assert!(s.begin_open(TerminalSize::default()).is_err());
}

#[test]
fn registry_register_lookup_remove() {
    let mut reg: Registry<ShellSession> = Registry::new();
    assert!(reg.is_empty());
    let s = ShellSession::new("sid-1".to_string(), None);
    reg.register(s.session_id.clone(), s);
    assert!(reg.contains("sid-1"));
    assert!(reg.lookup("sid-1").is_some());
    assert!(reg.lookup("sid-2").is_none());
    let removed = reg.remove("sid-1").expect("was registered");
    assert_eq!(removed.session_id, "sid-1");
    assert!(!reg.contains("sid-1"));
    // removing an absent id is a no-op, not an error
    assert!(reg.remove("sid-1").is_none());
}

#[test]
fn connect_then_disconnect_leaves_no_trace() {
    let mut sessions: Registry<ShellSession> = Registry::new();
    let mut jumps: Registry<JumpConnection> = Registry::new();
    let s = ShellSession::new("sid-9".to_string(), None);
    sessions.register(s.session_id.clone(), s);
    assert!(sessions.contains("sid-9"));
    let closed = disconnect_session(&mut sessions, &mut jumps, "sid-9").expect("was live");
    assert_eq!(closed.state, ShellState::Closed);
    assert!(!sessions.contains("sid-9"));
    assert!(sessions.is_empty());
}

#[test]
fn disconnect_releases_the_jump_connection() {
    let mut sessions: Registry<ShellSession> = Registry::new();
    let mut jumps: Registry<JumpConnection> = Registry::new();
    jumps.register(
        "jump-1".to_string(),
        JumpConnection { connection_id: "jump-1".to_string() },
    );
    let s = ShellSession::new("sid-9".to_string(), Some("jump-1".to_string()));
    sessions.register(s.session_id.clone(), s);
    assert!(!jumps.is_empty());
    disconnect_session(&mut sessions, &mut jumps, "sid-9").expect("was live");
    // the tunneled session gone, the kept-alive jump connection is gone too
    assert!(jumps.is_empty());
    assert!(sessions.is_empty());
}

#[test]
fn disconnect_of_an_absent_session_changes_nothing() {
    let mut sessions: Registry<ShellSession> = Registry::new();
    let mut jumps: Registry<JumpConnection> = Registry::new();
    jumps.register(
        "jump-1".to_string(),
        JumpConnection { connection_id: "jump-1".to_string() },
    );
    assert!(disconnect_session(&mut sessions, &mut jumps, "ghost").is_none());
    assert!(!jumps.is_empty());
}
