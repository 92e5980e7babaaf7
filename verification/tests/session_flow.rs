use statusbar::command::Op;
use statusbar::sendq::SendQueue;
use statusbar::session::{
    classify_login_response, Action, Message, State, Todos, TodosCache, WsMessage,
    COLLAPSED_HEIGHT, EXPANDED_HEIGHT, LOGIN_DURATION_MILLIS,
};
use statusbar::tasks::TaskStatus;
use statusbar::urls::{parse_url, scheme_ok, server_url_supported, task_updates_url};
use statusbar::wm::{report_wmhints_error, window_type_atom_name, GrabStatus, WindowType,
    WmHintsError};

fn fresh_todos(nocache: bool) -> Todos {
    Todos::try_new("https://example.com/api/".to_string(), nocache, State::not_logged_in())
        .expect("a supported server URL")
}

fn step(t: &mut Todos, m: Message) -> Vec<Action> {
    t.update(m, 1000, "fresh-id".to_string())
}

#[test]
fn session_login_connect_receive_unauthorized() {
    let mut t = fresh_todos(false);
    assert!(matches!(t.state, State::NotLoggedIn(_)));

    // Login succeeds with api key "K": credentials cached, connect started.
    let actions = step(&mut t, Message::LoginAttemptComplete(Ok(Some("K".to_string()))));
    match &t.state {
        State::NotConnected(nc) => {
            assert_eq!(nc.api_key, "K");
            assert!(nc.error.is_none());
        }
        other => panic!("unexpected state: {:?}", other),
    }
    assert_eq!(actions.len(), 2);
    match &actions[0] {
        Action::WriteCache(c) => {
            assert_eq!(c.api_key, "K");
            assert_eq!(c.server_api_url, "https://example.com/api/");
        }
        other => panic!("unexpected action: {:?}", other),
    }
    assert!(matches!(&actions[1], Action::Connect { api_key } if api_key == "K"));

    // The transport comes up: an empty snapshot, receive armed.
    let actions = step(&mut t, Message::ConnectAttemptComplete(Ok(())));
    assert!(matches!(actions[..], [Action::Receive, Action::FocusMainInput]));
    match &t.state {
        State::Connected(c) => {
            assert_eq!(c.api_key, "K");
            assert!(c.snapshot.live.is_empty());
            assert!(c.snapshot.finished.is_empty());
            assert!(c.active_id_val.is_none());
        }
        other => panic!("unexpected state: {:?}", other),
    }

    // A text frame arrives: the operation lands in the snapshot.
    let frame = WsMessage::Text(
        "{\"kind\":{\"InsLiveTask\":{\"id\":\"1\",\"value\":\"buy milk\"}}}".to_string(),
    );
    let actions = step(&mut t, Message::WebsocketRecvComplete(Some(Ok(frame))));
    assert!(matches!(actions[..], [Action::Receive]));
    match &t.state {
        State::Connected(c) => {
            assert_eq!(c.snapshot.live.len(), 1);
            assert_eq!(c.snapshot.live[0].id, "1");
            assert_eq!(c.snapshot.live[0].value, "buy milk");
        }
        other => panic!("unexpected state: {:?}", other),
    }

    // The server closes with "Unauthorized": back to the login form,
    // cached credentials cleared.
    let close = WsMessage::Close(Some("Unauthorized".to_string()));
    let actions = step(&mut t, Message::WebsocketRecvComplete(Some(Ok(close))));
    assert!(matches!(t.state, State::NotLoggedIn(_)));
    assert!(matches!(actions[..], [Action::DeleteCache]));
}

#[test]
fn other_close_keeps_credentials() {
    let mut t = fresh_todos(true);
    step(&mut t, Message::LoginAttemptComplete(Ok(Some("K".to_string()))));
    step(&mut t, Message::ConnectAttemptComplete(Ok(())));
    let close = WsMessage::Close(Some("server going down".to_string()));
    let actions = step(&mut t, Message::WebsocketRecvComplete(Some(Ok(close))));
    assert!(actions.is_empty());
    match &t.state {
        State::NotConnected(nc) => {
            assert_eq!(nc.api_key, "K");
            assert_eq!(nc.error.as_deref(), Some("server going down"));
        }
        other => panic!("unexpected state: {:?}", other),
    }
}

#[test]
fn ping_is_answered_with_a_pong() {
    let mut t = fresh_todos(true);
    step(&mut t, Message::LoginAttemptComplete(Ok(Some("K".to_string()))));
    step(&mut t, Message::ConnectAttemptComplete(Ok(())));
    let ping = WsMessage::Ping(vec![1, 2, 3]);
    let actions = step(&mut t, Message::WebsocketRecvComplete(Some(Ok(ping))));
    assert_eq!(actions.len(), 2);
    assert!(matches!(actions[0], Action::Receive));
    assert!(matches!(&actions[1], Action::SendPong(d) if d == &vec![1u8, 2, 3]));
    assert!(matches!(t.state, State::Connected(_)));
}

#[test]
fn malformed_operation_drops_the_connection() {
    let mut t = fresh_todos(true);
    step(&mut t, Message::LoginAttemptComplete(Ok(Some("K".to_string()))));
    step(&mut t, Message::ConnectAttemptComplete(Ok(())));
    let frame = WsMessage::Text("{not an operation}".to_string());
    let actions = step(&mut t, Message::WebsocketRecvComplete(Some(Ok(frame))));
    assert!(actions.is_empty());
    match &t.state {
        State::NotConnected(nc) => {
            assert_eq!(nc.api_key, "K");
            assert_eq!(nc.error.as_deref(), Some("malformed operation"));
        }
        other => panic!("unexpected state: {:?}", other),
    }
}

#[test]
fn send_failure_drops_the_connection() {
    let mut t = fresh_todos(true);
    step(&mut t, Message::LoginAttemptComplete(Ok(Some("K".to_string()))));
    step(&mut t, Message::ConnectAttemptComplete(Ok(())));
    let actions = step(&mut t, Message::WebsocketSendComplete(Err("pipe broke".to_string())));
    assert!(actions.is_empty());
    match &t.state {
        State::NotConnected(nc) => {
            assert_eq!(nc.api_key, "K");
            assert_eq!(nc.error.as_deref(), Some("pipe broke"));
        }
        other => panic!("unexpected state: {:?}", other),
    }
}

#[test]
fn login_failure_shows_the_error() {
    let mut t = fresh_todos(true);
    let actions = step(&mut t, Message::LoginAttemptComplete(Err("bad password".to_string())));
    assert!(actions.is_empty());
    match &t.state {
        State::NotLoggedIn(s) => assert_eq!(s.error.as_deref(), Some("bad password")),
        other => panic!("unexpected state: {:?}", other),
    }
}

#[test]
fn login_without_key_shows_the_error() {
    let mut t = fresh_todos(true);
    step(&mut t, Message::LoginAttemptComplete(Ok(None)));
    match &t.state {
        State::NotLoggedIn(s) => assert_eq!(s.error.as_deref(), Some("No ApiKey returned")),
        other => panic!("unexpected state: {:?}", other),
    }
}

#[test]
fn connect_failure_waits_for_manual_retry() {
    let mut t = fresh_todos(true);
    step(&mut t, Message::LoginAttemptComplete(Ok(Some("K".to_string()))));
    let actions = step(&mut t, Message::ConnectAttemptComplete(Err("refused".to_string())));
    assert!(actions.is_empty());
    match &t.state {
        State::NotConnected(nc) => assert_eq!(nc.error.as_deref(), Some("refused")),
        other => panic!("unexpected state: {:?}", other),
    }
    let actions = step(&mut t, Message::RetryConnect);
    assert!(matches!(&actions[..], [Action::Connect { api_key }] if api_key == "K"));
    match &t.state {
        State::NotConnected(nc) => assert!(nc.error.is_none()),
        other => panic!("unexpected state: {:?}", other),
    }
}

#[test]
fn submit_input_sends_the_encoded_operation() {
    let mut t = fresh_todos(true);
    step(&mut t, Message::LoginAttemptComplete(Ok(Some("K".to_string()))));
    step(&mut t, Message::ConnectAttemptComplete(Ok(())));
    step(&mut t, Message::EditInput("hello world".to_string()));
    let actions = t.update(Message::SubmitInput, 5, "xyz".to_string());
    assert_eq!(actions.len(), 1);
    match &actions[0] {
        Action::SendText(text) => assert_eq!(
            text,
            "{\"alleged_time\":5,\"kind\":{\"InsLiveTask\":{\"id\":\"xyz\",\"value\":\"hello world\"}}}"
        ),
        other => panic!("unexpected action: {:?}", other),
    }
    match &t.state {
        State::Connected(c) => assert_eq!(c.input_value, ""),
        other => panic!("unexpected state: {:?}", other),
    }
}

#[test]
fn submit_command_finishes_the_front_task() {
    let mut t = fresh_todos(true);
    step(&mut t, Message::LoginAttemptComplete(Ok(Some("K".to_string()))));
    step(&mut t, Message::ConnectAttemptComplete(Ok(())));
    let frame = WsMessage::Text(
        "{\"kind\":{\"InsLiveTask\":{\"id\":\"t1\",\"value\":\"the task\"}}}".to_string(),
    );
    step(&mut t, Message::WebsocketRecvComplete(Some(Ok(frame))));
    step(&mut t, Message::EditInput("s".to_string()));
    let actions = t.update(Message::SubmitInput, 9, "unused".to_string());
    assert_eq!(actions.len(), 1);
    match &actions[0] {
        Action::SendText(text) => assert_eq!(
            text,
            "{\"alleged_time\":9,\"kind\":{\"FinishLiveTask\":{\"id\":\"t1\",\"status\":\"Succeeded\"}}}"
        ),
        other => panic!("unexpected action: {:?}", other),
    }
}

#[test]
fn set_active_commits_the_previous_edit() {
    let mut t = fresh_todos(true);
    step(&mut t, Message::LoginAttemptComplete(Ok(Some("K".to_string()))));
    step(&mut t, Message::ConnectAttemptComplete(Ok(())));
    for id in ["b", "a"] {
        let frame = WsMessage::Text(format!(
            "{{\"kind\":{{\"InsLiveTask\":{{\"id\":\"{}\",\"value\":\"V{}\"}}}}}}",
            id, id
        ));
        step(&mut t, Message::WebsocketRecvComplete(Some(Ok(frame))));
    }
    // Begin editing task a, type, then switch to task b: the edit of a
    // is committed as one operation.
    let actions = step(&mut t, Message::SetActive(Some("a".to_string())));
    assert!(matches!(actions[..], [Action::FocusActiveInput]));
    step(&mut t, Message::EditActive("a, rewritten".to_string()));
    let actions = t.update(Message::SetActive(Some("b".to_string())), 7, "n/a".to_string());
    assert_eq!(actions.len(), 2);
    match &actions[0] {
        Action::SendText(text) => assert_eq!(
            text,
            "{\"alleged_time\":7,\"kind\":{\"EditLiveTask\":{\"id\":\"a\",\"value\":\"a, rewritten\"}}}"
        ),
        other => panic!("unexpected action: {:?}", other),
    }
    assert!(matches!(actions[1], Action::FocusActiveInput));
    match &t.state {
        State::Connected(c) => {
            assert_eq!(c.active_id_val, Some(("b".to_string(), "Vb".to_string())));
        }
        other => panic!("unexpected state: {:?}", other),
    }
}

#[test]
fn logout_clears_cache_and_returns_to_the_form() {
    let mut t = fresh_todos(false);
    step(&mut t, Message::LoginAttemptComplete(Ok(Some("K".to_string()))));
    let actions = step(&mut t, Message::LogOut);
    assert!(matches!(actions[..], [Action::DeleteCache]));
    assert!(matches!(t.state, State::NotLoggedIn(_)));
}

#[test]
fn dock_focus_and_geometry_actions() {
    let mut t = fresh_todos(true);
    let actions = step(&mut t, Message::FocusDock);
    assert!(actions.is_empty());
    let actions = step(&mut t, Message::ExpandDock);
    assert!(matches!(
        actions[..],
        [Action::GrabKeyboard, Action::Resize(EXPANDED_HEIGHT), Action::FocusEmailInput]
    ));
    let actions = step(&mut t, Message::GrabComplete(true));
    assert!(actions.is_empty());
    assert!(t.grabbed);
    let actions = step(&mut t, Message::CollapseDock);
    assert!(matches!(
        actions[..],
        [Action::UngrabKeyboard, Action::Resize(COLLAPSED_HEIGHT)]
    ));
    let actions = step(&mut t, Message::UngrabComplete(true));
    assert!(actions.is_empty());
    assert!(!t.grabbed);
}

#[test]
fn login_form_flow() {
    let mut t = fresh_todos(true);
    step(&mut t, Message::EditEmail("me@example.com".to_string()));
    let actions = step(&mut t, Message::SubmitPassword);
    assert!(matches!(actions[..], [Action::FocusNextWidget]));
    step(&mut t, Message::EditPassword("hunter2".to_string()));
    let actions = step(&mut t, Message::SubmitPassword);
    assert!(matches!(&actions[..], [Action::Dispatch(Message::AttemptLogin)]));
    let actions = step(&mut t, Message::AttemptLogin);
    assert_eq!(actions.len(), 1);
    match &actions[0] {
        Action::Login { email, password, duration_millis } => {
            assert_eq!(email, "me@example.com");
            assert_eq!(password, "hunter2");
            assert_eq!(*duration_millis, LOGIN_DURATION_MILLIS);
        }
        other => panic!("unexpected action: {:?}", other),
    }
}

#[test]
fn single_send_in_flight_discipline() {
    let mut q = SendQueue::new();
    let n = 20;
    for i in 0..n {
        q.enqueue(format!("op {}", i));
    }
    // Twenty enqueued sends come out one at a time, in order, and
    // never while another is still in flight.
    let mut seen = Vec::new();
    loop {
        let msg = match q.begin_send() {
            Some(msg) => msg,
            None => break,
        };
        // In flight: a second send cannot start.
        assert!(q.sending());
        assert!(q.begin_send().is_none());
        seen.push(msg);
        q.complete_send();
        assert!(!q.sending());
    }
    let expected: Vec<String> = (0..n).map(|i| format!("op {}", i)).collect();
    assert_eq!(seen, expected);
}

#[test]
fn initial_state_honours_the_cache() {
    let url = "https://example.com/api/".to_string();
    let cache = TodosCache { server_api_url: url.clone(), api_key: "K".to_string() };
    match statusbar::session::initial_state(false, Some(cache), &url) {
        State::Restored(s) => assert_eq!(s.api_key, "K"),
        other => panic!("unexpected state: {:?}", other),
    }
    let stale = TodosCache {
        server_api_url: "https://other.example.com/".to_string(),
        api_key: "K".to_string(),
    };
    assert!(matches!(
        statusbar::session::initial_state(false, Some(stale), &url),
        State::NotLoggedIn(_)
    ));
    let cache2 = TodosCache { server_api_url: url.clone(), api_key: "K".to_string() };
    assert!(matches!(
        statusbar::session::initial_state(true, Some(cache2), &url),
        State::NotLoggedIn(_)
    ));
    assert!(matches!(
        statusbar::session::initial_state(false, None, &url),
        State::NotLoggedIn(_)
    ));
}

#[test]
fn task_updates_endpoint_is_built_from_the_server_url() {
    let u = task_updates_url("https://example.com/api/", "K1").unwrap();
    assert_eq!(u, "wss://example.com/api/ws/task_updates?api_key=K1");
    let u = task_updates_url("http://example.com/", "K2").unwrap();
    assert_eq!(u, "ws://example.com/ws/task_updates?api_key=K2");
    assert!(task_updates_url("not a url", "K").is_none());
}

#[test]
fn supported_schemes() {
    assert!(scheme_ok("http"));
    assert!(scheme_ok("https"));
    assert!(!scheme_ok("ftp"));
    assert!(!scheme_ok(""));
    assert!(server_url_supported("http://example.com/"));
    assert!(server_url_supported("https://example.com/api/"));
    assert!(!server_url_supported("ftp://example.com/"));
    assert!(!server_url_supported("not a url"));
}

#[test]
fn url_parsing_normalizes_the_serialization() {
    // The normalized text gains the trailing slash; the cache and the
    // session state machine both see this form.
    assert_eq!(parse_url("http://example.com").as_deref(), Some("http://example.com/"));
    assert_eq!(
        parse_url("https://example.com/api/").as_deref(),
        Some("https://example.com/api/")
    );
    assert!(parse_url("not a url").is_none());
}

#[test]
fn unsupported_server_urls_build_no_dock_model() {
    assert!(Todos::try_new("ftp://example.com/".to_string(), true, State::not_logged_in())
        .is_none());
    assert!(Todos::try_new("not a url".to_string(), true, State::not_logged_in()).is_none());
}

#[test]
fn login_responses_are_classified_by_status() {
    assert_eq!(
        classify_login_response(200, "{\"key\":\"K\"}".to_string()),
        Ok("{\"key\":\"K\"}".to_string())
    );
    assert_eq!(classify_login_response(299, "ok".to_string()), Ok("ok".to_string()));
    assert_eq!(
        classify_login_response(401, "bad password".to_string()),
        Err("401: bad password".to_string())
    );
    assert_eq!(classify_login_response(500, "oops".to_string()), Err("500: oops".to_string()));
}

#[test]
fn wm_error_texts() {
    assert_eq!(
        report_wmhints_error(WmHintsError::UnsupportedError),
        "Platform does not support X11"
    );
    assert_eq!(
        report_wmhints_error(WmHintsError::XcbError("connection reset".to_string())),
        "XCB: connection reset"
    );
    assert_eq!(
        report_wmhints_error(WmHintsError::XcbGrabStatusError(GrabStatus::AlreadyGrabbed)),
        "Couldn't Grab: already grabbed"
    );
    assert_eq!(
        report_wmhints_error(WmHintsError::XcbGrabStatusError(GrabStatus::Frozen)),
        "Couldn't Grab: frozen"
    );
}

#[test]
fn window_type_atom_names() {
    assert_eq!(window_type_atom_name(WindowType::Dock), "_NET_WM_WINDOW_TYPE_DOCK");
    assert_eq!(window_type_atom_name(WindowType::Normal), "_NET_WM_WINDOW_TYPE_NORMAL");
    assert_eq!(
        window_type_atom_name(WindowType::DropdownMenu),
        "_NET_WM_WINDOW_TYPE_DROPDOWN_MENU"
    );
}

#[test]
fn ui_op_message_is_sent_when_connected() {
    let mut t = fresh_todos(true);
    step(&mut t, Message::LoginAttemptComplete(Ok(Some("K".to_string()))));
    step(&mut t, Message::ConnectAttemptComplete(Ok(())));
    let actions = t.update(
        Message::Op(Op::Pop("some-id".to_string(), TaskStatus::Obsoleted)),
        11,
        "n/a".to_string(),
    );
    assert_eq!(actions.len(), 1);
    match &actions[0] {
        Action::SendText(text) => assert_eq!(
            text,
            "{\"alleged_time\":11,\"kind\":{\"FinishLiveTask\":{\"id\":\"some-id\",\"status\":\"Obsoleted\"}}}"
        ),
        other => panic!("unexpected action: {:?}", other),
    }
}

#[test]
fn messages_in_the_wrong_state_do_nothing() {
    let mut t = fresh_todos(true);
    // Not connected: connected-page messages are ignored.
    assert!(step(&mut t, Message::SubmitInput).is_empty());
    assert!(step(&mut t, Message::ToggleFinished).is_empty());
    assert!(step(&mut t, Message::WebsocketRecvComplete(None)).is_empty());
    assert!(matches!(t.state, State::NotLoggedIn(_)));
    // Logged in: the login form messages are ignored.
    step(&mut t, Message::LoginAttemptComplete(Ok(Some("K".to_string()))));
    assert!(step(&mut t, Message::AttemptLogin).is_empty());
    assert!(matches!(t.state, State::NotConnected(_)));
}

#[test]
fn lost_connection_on_stream_end() {
    let mut t = fresh_todos(true);
    step(&mut t, Message::LoginAttemptComplete(Ok(Some("K".to_string()))));
    step(&mut t, Message::ConnectAttemptComplete(Ok(())));
    let actions = step(&mut t, Message::WebsocketRecvComplete(None));
    assert!(actions.is_empty());
    match &t.state {
        State::NotConnected(nc) => assert_eq!(nc.error.as_deref(), Some("Lost connection")),
        other => panic!("unexpected state: {:?}", other),
    }
}

#[test]
fn n_submissions_become_n_serialized_sends() {
    let mut t = fresh_todos(true);
    step(&mut t, Message::LoginAttemptComplete(Ok(Some("K".to_string()))));
    step(&mut t, Message::ConnectAttemptComplete(Ok(())));
    // Ten task submissions produce ten send actions; the queue lets
    // them out one at a time, in submission order.
    let n = 10;
    let mut q = SendQueue::new();
    for i in 0..n {
        step(&mut t, Message::EditInput(format!("task number {}", i)));
        let actions = t.update(Message::SubmitInput, i as u64, format!("id-{}", i));
        assert_eq!(actions.len(), 1);
        match actions.into_iter().next().unwrap() {
            Action::SendText(text) => q.enqueue(text),
            other => panic!("unexpected action: {:?}", other),
        }
    }
    let mut sent = 0;
    while let Some(text) = q.begin_send() {
        assert!(q.begin_send().is_none());
        assert!(text.contains(&format!("task number {}", sent)));
        assert!(text.contains(&format!("id-{}", sent)));
        q.complete_send();
        sent += 1;
    }
    assert_eq!(sent, n);
}
