use open_cowork::runtime::session_runtime::{Runtime, Session, SessionStatus};

#[test]
fn start_and_stop_session() {
    let mut rt = Runtime::new();
    rt.start_session("s1");
    assert_eq!(rt.status("s1").unwrap(), SessionStatus::Running);
    rt.stop_session("s1");
    assert_eq!(rt.status("s1").unwrap(), SessionStatus::Completed);
}

#[test]
fn stop_of_unknown_session_changes_nothing() {
    let mut rt = Runtime::new();
    rt.stop_session("nobody");
    assert_eq!(rt.status("nobody"), None);
    rt.start_session("a");
    rt.stop_session("b");
    assert_eq!(rt.status("a"), Some(SessionStatus::Running));
    assert_eq!(rt.status("b"), None);
}

#[test]
fn restart_makes_a_session_run_again() {
    let mut rt = Runtime::new();
    rt.start_session("a");
    rt.stop_session("a");
    rt.start_session("a");
    assert_eq!(rt.status("a"), Some(SessionStatus::Running));
}

#[test]
fn session_clones() {
    let s = Session {
        id: "x".into(),
        status: SessionStatus::Idle,
    };
    assert_eq!(s.clone(), s);
}

#[test]
fn a_session_carries_the_id_that_it_is_filed_under() {
    let mut rt = Runtime::new();
    assert_eq!(rt.session("a"), None);
    rt.start_session("a");
    rt.start_session("b");
    assert_eq!(
        rt.session("a"),
        Some(Session {
            id: "a".into(),
            status: SessionStatus::Running
        })
    );
    rt.stop_session("a");
    assert_eq!(
        rt.session("a"),
        Some(Session {
            id: "a".into(),
            status: SessionStatus::Completed
        })
    );
    assert_eq!(
        rt.session("b"),
        Some(Session {
            id: "b".into(),
            status: SessionStatus::Running
        })
    );
    rt.start_session("a");
    assert_eq!(rt.session("a").unwrap().id, "a");
    assert_eq!(rt.session("c"), None);
}
