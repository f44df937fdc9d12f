use line_server::coordinator::{ControlMsg, Coordinator, Reaction};
use line_server::protocol::{dispatch, Action};
use line_server::store::LineStore;

#[test]
fn accept_assigns_monotonic_unique_ids() {
    let mut c = Coordinator::new();
    assert_eq!(c.accept(), 0);
    assert_eq!(c.accept(), 1);
    assert_eq!(c.accept(), 2);
    assert_eq!(c.live_count(), 3);
    assert!(c.is_live(0) && c.is_live(1) && c.is_live(2));
    assert!(!c.is_live(3));
    assert!(c.is_accepting());
}

#[test]
fn quit_retires_only_the_issuing_session() {
    let store = LineStore::new(vec!["the".to_string(), "quick brown".to_string()]);
    let mut c = Coordinator::new();
    let first = c.accept();
    let second = c.accept();

    // The first client sends QUIT: only its own session ends.
    assert_eq!(dispatch("QUIT", &store), Action::Quit);
    assert_eq!(
        c.handle_control(ControlMsg::SessionDone(first)),
        Reaction::AwaitSession(first)
    );
    assert!(!c.is_live(first));
    assert!(c.is_live(second));
    assert!(c.is_accepting());

    // The second client's subsequent GET still succeeds normally.
    assert_eq!(
        dispatch("GET 1", &store),
        Action::Respond("Ok\r\nquick brown\r\n".to_string())
    );
}

#[test]
fn session_done_is_exactly_once() {
    let mut c = Coordinator::new();
    let id = c.accept();
    assert_eq!(
        c.handle_control(ControlMsg::SessionDone(id)),
        Reaction::AwaitSession(id)
    );
    assert_eq!(
        c.handle_control(ControlMsg::SessionDone(id)),
        Reaction::UnknownSession(id)
    );
    assert_eq!(c.live_count(), 0);
}

#[test]
fn unknown_session_report_is_nonfatal() {
    let mut c = Coordinator::new();
    c.accept();
    assert_eq!(
        c.handle_control(ControlMsg::SessionDone(42)),
        Reaction::UnknownSession(42)
    );
    assert_eq!(c.live_count(), 1);
    assert!(c.is_accepting());
}

#[test]
fn shutdown_stops_accepting_and_keeps_registry() {
    let mut c = Coordinator::new();
    c.accept();
    c.accept();
    c.accept();
    assert_eq!(c.handle_control(ControlMsg::Shutdown), Reaction::Stop);
    assert!(!c.is_accepting());
    assert_eq!(c.live_count(), 3);
}

#[test]
fn ids_are_not_reused_after_retirement() {
    let mut c = Coordinator::new();
    let a = c.accept();
    c.handle_control(ControlMsg::SessionDone(a));
    let b = c.accept();
    assert_ne!(a, b);
    assert_eq!(b, 1);
}
