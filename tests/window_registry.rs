use activity_watchers::toplevel::STATE_ACTIVATED;
use activity_watchers::{
    EventOutcome, ToplevelEvent, ToplevelState, WatcherError, WlrForeignToplevelWatcher,
};

fn s(text: &str) -> String {
    text.to_string()
}

fn new_window(id: &str) -> ToplevelEvent {
    ToplevelEvent::Toplevel { id: s(id) }
}

fn activate(id: &str) -> ToplevelEvent {
    ToplevelEvent::State { id: s(id), states: vec![STATE_ACTIVATED] }
}

fn pair(app_id: &str, title: &str) -> (String, String) {
    (s(app_id), s(title))
}

#[test]
fn new_window_has_placeholders() {
    let mut st = ToplevelState::new();
    assert_eq!(st.event(&new_window("w1")), EventOutcome::Applied);
    assert_eq!(st.window(&s("w1")), Some(pair("unknown", "unknown")));
    assert_eq!(st.window_count(), 1);
}

#[test]
fn properties_update_field_by_field() {
    let mut st = ToplevelState::new();
    st.event(&new_window("w1"));
    st.event(&ToplevelEvent::Title { id: s("w1"), title: s("Inbox") });
    assert_eq!(st.window(&s("w1")), Some(pair("unknown", "Inbox")));
    st.event(&ToplevelEvent::AppId { id: s("w1"), app_id: s("mail") });
    assert_eq!(st.window(&s("w1")), Some(pair("mail", "Inbox")));
    assert_eq!(st.event(&ToplevelEvent::Done { id: s("w1") }), EventOutcome::Applied);
    assert_eq!(st.window(&s("w1")), Some(pair("mail", "Inbox")));
}

#[test]
fn updates_for_unknown_windows_are_dropped() {
    let mut st = ToplevelState::new();
    st.event(&new_window("w1"));
    let events = [
        ToplevelEvent::Title { id: s("w9"), title: s("x") },
        ToplevelEvent::AppId { id: s("w9"), app_id: s("x") },
        activate("w9"),
        ToplevelEvent::Done { id: s("w9") },
    ];
    for e in &events {
        assert_eq!(st.event(e), EventOutcome::UnknownWindow);
    }
    assert_eq!(st.window_count(), 1);
    assert_eq!(st.window(&s("w9")), None);
    assert_eq!(st.current_window_id(), None);
}

#[test]
fn closing_unknown_window_is_a_no_op() {
    let mut st = ToplevelState::new();
    st.event(&new_window("w1"));
    assert_eq!(st.event(&ToplevelEvent::Closed { id: s("w2") }), EventOutcome::AlreadyRemoved);
    assert_eq!(st.window_count(), 1);
    assert_eq!(st.window(&s("w1")), Some(pair("unknown", "unknown")));
}

#[test]
fn closing_twice_reports_a_duplicate() {
    let mut st = ToplevelState::new();
    st.event(&new_window("w1"));
    assert_eq!(st.event(&ToplevelEvent::Closed { id: s("w1") }), EventOutcome::Applied);
    assert_eq!(st.event(&ToplevelEvent::Closed { id: s("w1") }), EventOutcome::AlreadyRemoved);
    assert_eq!(st.window_count(), 0);
}

#[test]
fn reannounced_window_is_reset() {
    let mut st = ToplevelState::new();
    st.event(&new_window("w1"));
    st.event(&ToplevelEvent::Title { id: s("w1"), title: s("t") });
    st.event(&new_window("w1"));
    assert_eq!(st.window_count(), 1);
    assert_eq!(st.window(&s("w1")), Some(pair("unknown", "unknown")));
}

#[test]
fn activation_overwrites_the_focused_window() {
    let mut st = ToplevelState::new();
    st.event(&new_window("w1"));
    st.event(&new_window("w2"));
    st.event(&activate("w1"));
    assert_eq!(st.current_window_id(), Some(s("w1")));
    st.event(&activate("w2"));
    assert_eq!(st.current_window_id(), Some(s("w2")));
    st.event(&activate("w1"));
    assert_eq!(st.current_window_id(), Some(s("w1")));
}

#[test]
fn state_without_activated_keeps_focus() {
    let mut st = ToplevelState::new();
    st.event(&new_window("w1"));
    st.event(&new_window("w2"));
    st.event(&activate("w1"));
    let e = ToplevelEvent::State { id: s("w2"), states: vec![0, 1, 3] };
    assert_eq!(st.event(&e), EventOutcome::Applied);
    assert_eq!(st.current_window_id(), Some(s("w1")));
    let multi = ToplevelEvent::State { id: s("w2"), states: vec![0, STATE_ACTIVATED] };
    st.event(&multi);
    assert_eq!(st.current_window_id(), Some(s("w2")));
}

#[test]
fn closing_focused_window_leaves_reference_dangling() {
    let mut st = ToplevelState::new();
    st.event(&new_window("w1"));
    st.event(&activate("w1"));
    st.event(&ToplevelEvent::Closed { id: s("w1") });
    assert_eq!(st.current_window_id(), Some(s("w1")));
    assert_eq!(st.send_active_window(), Err(WatcherError::DanglingWindowReference));
    st.event(&new_window("w2"));
    st.event(&activate("w2"));
    assert_eq!(st.send_active_window(), Ok(pair("unknown", "unknown")));
}

#[test]
fn no_focused_window_yet() {
    let mut st = ToplevelState::new();
    assert_eq!(st.send_active_window(), Err(WatcherError::NoActiveWindow));
    st.event(&new_window("w1"));
    assert_eq!(st.send_active_window(), Err(WatcherError::NoActiveWindow));
}

#[test]
fn focused_window_is_reported_unchanged() {
    let mut st = ToplevelState::new();
    st.event(&new_window("w1"));
    st.event(&ToplevelEvent::AppId { id: s("w1"), app_id: s("org.editor") });
    st.event(&ToplevelEvent::Title { id: s("w1"), title: s("main.rs — editor") });
    st.event(&activate("w1"));
    assert_eq!(st.send_active_window(), Ok(pair("org.editor", "main.rs — editor")));
}

#[test]
fn batch_matches_events_one_by_one() {
    let events = vec![
        new_window("a"),
        new_window("b"),
        ToplevelEvent::Title { id: s("a"), title: s("A") },
        activate("a"),
        ToplevelEvent::AppId { id: s("b"), app_id: s("bee") },
        ToplevelEvent::Closed { id: s("a") },
        ToplevelEvent::Closed { id: s("c") },
        ToplevelEvent::Title { id: s("a"), title: s("again") },
        ToplevelEvent::Finished,
    ];
    let mut batch = ToplevelState::new();
    let outcomes = batch.process_events(&events);
    assert_eq!(
        outcomes,
        vec![
            EventOutcome::Applied,
            EventOutcome::Applied,
            EventOutcome::Applied,
            EventOutcome::Applied,
            EventOutcome::Applied,
            EventOutcome::Applied,
            EventOutcome::AlreadyRemoved,
            EventOutcome::UnknownWindow,
            EventOutcome::ManagerFinished,
        ]
    );
    let mut single = ToplevelState::new();
    for e in &events {
        single.event(e);
    }
    for st in [&batch, &single] {
        assert_eq!(st.window_count(), 1);
        assert_eq!(st.window(&s("a")), None);
        assert_eq!(st.window(&s("b")), Some(pair("bee", "unknown")));
        assert_eq!(st.current_window_id(), Some(s("a")));
        assert_eq!(st.send_active_window(), Err(WatcherError::DanglingWindowReference));
    }
}

#[test]
fn finished_manager_is_surfaced() {
    let mut st = ToplevelState::new();
    assert_eq!(st.event(&ToplevelEvent::Finished), EventOutcome::ManagerFinished);
    assert_eq!(st.window_count(), 0);
}

#[test]
fn window_watcher_needs_session_and_manager() {
    let none: Option<u8> = None;
    assert_eq!(
        WlrForeignToplevelWatcher::new(none, true).err(),
        Some(WatcherError::SessionUnavailable)
    );
    assert_eq!(
        WlrForeignToplevelWatcher::new(Some(7u8), false).err(),
        Some(WatcherError::SessionUnavailable)
    );
    let mut w = WlrForeignToplevelWatcher::new(Some(7u8), true).unwrap();
    assert_eq!(*w.connection_mut(), 7);
}
