//! The session state machine and reconciliation core: the connection
//! lifecycle from [`State::NotLoggedIn`] through [`State::Connected`],
//! and the single authority over the snapshot and the active-edit slot
//! while connected.
//!
//! [`Todos::update`] is a pure transition function from the current
//! state and one event to the next state and the actions to perform.
//! The surrounding application owns the transport, the clock, the
//! random ids, the files and the window, performs each [`Action`], and
//! hands the outcome back as the next [`Message`].

use vstd::prelude::*;

use crate::codec::{decode_op, encode_op};
use crate::command::{interpret, spec_interpret, Intent, IntentV, Op, UserOpV};
use crate::tasks::{
    apply_kind, edit_view, OpKindV, OpV, StateSnapshot, WebsocketOp, WebsocketOpKind,
};
use crate::wire::{parse_op, print_op};

verus! {

/// Height of the dock window when expanded, in pixels.
pub const EXPANDED_HEIGHT: u32 = 250;

/// Height of the dock window when collapsed, in pixels.
pub const COLLAPSED_HEIGHT: u32 = 50;

/// How long a requested api key stays valid, in milliseconds: one day.
pub const LOGIN_DURATION_MILLIS: u64 = 86400000;

/// The dock's configuration file contents: where the server lives.
#[derive(Debug)]
pub struct TodosConfig {
    pub server_api_url: String,
}

impl Default for TodosConfig {
    /// The default configuration points at a local server.
    fn default() -> (r: Self)
        ensures
            r.server_api_url@ == "http://localhost:8080/public/"@,
    {
        TodosConfig { server_api_url: String::from_str("http://localhost:8080/public/") }
    }
}

/// The dock's credential cache file contents: the server the key was
/// issued for, so that a changed configuration invalidates it, and the
/// key itself.
#[derive(Debug)]
pub struct TodosCache {
    pub server_api_url: String,
    pub api_key: String,
}

/// Login form state: what the user typed and the error to display.
#[derive(Debug)]
pub struct NotLoggedInState {
    pub email: String,
    pub password: String,
    pub view_password: bool,
    pub error: Option<String>,
}

/// Holds an api key with no connection; the error to display, if any.
#[derive(Debug)]
pub struct NotConnectedState {
    pub api_key: String,
    pub error: Option<String>,
}

/// An api key restored from the cache, waiting for the user to resume.
#[derive(Debug)]
pub struct RestoredState {
    pub api_key: String,
}

/// A live session: the snapshot it owns, the single active-edit slot,
/// and the input line. The transport that feeds this state lives with
/// the caller, which drives [`Todos::update`] with its events.
#[derive(Debug)]
pub struct ConnectedState {
    pub api_key: String,
    pub input_value: String,
    pub active_id_val: Option<(String, String)>,
    pub snapshot: StateSnapshot,
    pub show_finished: bool,
}

/// The session: exactly one variant is live at a time, and a
/// transition replaces the old state wholly.
#[derive(Debug)]
pub enum State {
    NotLoggedIn(NotLoggedInState),
    Restored(RestoredState),
    NotConnected(NotConnectedState),
    Connected(ConnectedState),
}

impl State {
    /// The state restored from a cached api key.
    pub fn from_cache(api_key: String) -> (r: State)
        ensures
            r matches State::Restored(s) && s.api_key == api_key,
    {
        State::Restored(RestoredState { api_key })
    }

    /// The disconnected state with this key and error.
    pub fn not_connected(api_key: String, error: Option<String>) -> (r: State)
        ensures
            r matches State::NotConnected(s) && s.api_key == api_key && s.error == error,
    {
        State::NotConnected(NotConnectedState { api_key, error })
    }

    /// The empty login form.
    pub fn not_logged_in() -> (r: State)
        ensures
            r matches State::NotLoggedIn(s) && s.email@ == Seq::<char>::empty() && s.password@
                == Seq::<char>::empty() && !s.view_password && s.error is None,
    {
        State::NotLoggedIn(
            NotLoggedInState {
                email: String::new(),
                password: String::new(),
                view_password: false,
                error: None,
            },
        )
    }
}

/// The starting state: the cached key when caching is on, the cache
/// exists and was written for this very server URL; the login form
/// otherwise.
pub fn initial_state(nocache: bool, cache: Option<TodosCache>, server_api_url: &String) -> (r:
    State)
    ensures
        match cache {
            Some(c) => if !nocache && c.server_api_url@ == server_api_url@ {
                r matches State::Restored(s) && s.api_key == c.api_key
            } else {
                r matches State::NotLoggedIn(_)
            },
            None => r matches State::NotLoggedIn(_),
        },
{
    if nocache {
        return State::not_logged_in();
    }
    match cache {
        Some(c) => {
            if c.server_api_url == *server_api_url {
                State::from_cache(c.api_key)
            } else {
                State::not_logged_in()
            }
        },
        None => State::not_logged_in(),
    }
}

/// A message frame as the transport hands it over: the shapes of the
/// underlying websocket protocol, with plain payloads.
#[derive(Debug)]
pub enum WsMessage {
    Text(String),
    Binary(Vec<u8>),
    Ping(Vec<u8>),
    Pong(Vec<u8>),
    /// A close frame, with its reason when one was given.
    Close(Option<String>),
}

/// One event for the state machine: a user interaction or the outcome
/// of an action that the caller performed.
#[derive(Debug)]
pub enum Message {
    // focus and dock geometry
    FocusDock,
    UnfocusDock,
    ExpandDock,
    CollapseDock,
    GrabComplete(bool),
    UngrabComplete(bool),
    // login form
    EditEmail(String),
    SubmitEmail,
    EditPassword(String),
    SubmitPassword,
    TogglePasswordView,
    AttemptLogin,
    /// The login call came back: the api key, when the response held
    /// one, or the error to display.
    LoginAttemptComplete(Result<Option<String>, String>),
    // connection lifecycle
    RetryConnect,
    ConnectAttemptComplete(Result<(), String>),
    LogOut,
    // connected page
    EditInput(String),
    SubmitInput,
    EditActive(String),
    SetActive(Option<String>),
    Op(Op),
    ToggleFinished,
    // transport outcomes
    WebsocketSendComplete(Result<(), String>),
    WebsocketRecvComplete(Option<Result<WsMessage, String>>),
}

/// One thing the caller must do on the state machine's behalf.
#[derive(Debug)]
pub enum Action {
    /// Send this text frame over the transport, through the
    /// single-flight send discipline.
    SendText(String),
    /// Send a pong frame with this payload.
    SendPong(Vec<u8>),
    /// Arm the next receive on the transport.
    Receive,
    /// Establish a transport to the task-updates endpoint with this
    /// key.
    Connect { api_key: String },
    /// Perform the login call.
    Login { email: String, password: String, duration_millis: u64 },
    /// Persist these credentials.
    WriteCache(TodosCache),
    /// Remove the persisted credentials.
    DeleteCache,
    /// Feed this message back into the state machine.
    Dispatch(Message),
    // widget focus and window geometry
    FocusEmailInput,
    FocusMainInput,
    FocusActiveInput,
    FocusNextWidget,
    GrabKeyboard,
    UngrabKeyboard,
    Resize(u32),
}

/// The operation that a user intent becomes, with the given fresh id
/// for a newly created task.
pub open spec fn user_op_kind(op: UserOpV, fresh_id: Seq<char>) -> OpKindV {
    match op {
        UserOpV::NewLive(value) => OpKindV::InsLiveTask { id: fresh_id, value },
        UserOpV::RestoreFinished(id) => OpKindV::RestoreFinishedTask { id },
        UserOpV::Pop(id, status) => OpKindV::FinishLiveTask { id, status },
        UserOpV::Edit(id, value) => OpKindV::EditLiveTask { id, value },
        UserOpV::Move(a, b) => OpKindV::MvLiveTask { id_del: a, id_ins: b },
        UserOpV::Rev(a, b) => OpKindV::RevLiveTask { id1: a, id2: b },
    }
}

/// The canonical text of the operation with this time and kind.
pub open spec fn sent_text(now_millis: u64, k: OpKindV) -> Seq<char> {
    print_op(OpV { alleged_time: now_millis, kind: k })
}

/// Builds the wire operation for a user intent: the caller's clock
/// reading as the asserted time, and its fresh random id for a new
/// task.
fn make_wsop(op: Op, now_millis: u64, fresh_id: String) -> (r: WebsocketOp)
    ensures
        r@.alleged_time == now_millis,
        r@.kind == user_op_kind(op@, fresh_id@),
{
    let kind = match op {
        Op::NewLive(value) => WebsocketOpKind::InsLiveTask { id: fresh_id, value },
        Op::RestoreFinished(id) => WebsocketOpKind::RestoreFinishedTask { id },
        Op::Pop(id, status) => WebsocketOpKind::FinishLiveTask { id, status },
        Op::Edit(id, value) => WebsocketOpKind::EditLiveTask { id, value },
        Op::Move(a, b) => WebsocketOpKind::MvLiveTask { id_del: a, id_ins: b },
        Op::Rev(a, b) => WebsocketOpKind::RevLiveTask { id1: a, id2: b },
    };
    WebsocketOp { alleged_time: now_millis, kind }
}

/// The action that sends a user intent: the operation, encoded.
fn send_op_action(op: Op, now_millis: u64, fresh_id: String) -> (r: Action)
    ensures
        r matches Action::SendText(t) && t@ == sent_text(
            now_millis,
            user_op_kind(op@, fresh_id@),
        ),
{
    let wsop = make_wsop(op, now_millis, fresh_id);
    Action::SendText(encode_op(&wsop))
}

/// The whole dock model: the configured server's normalized URL text,
/// the window state, and the session.
#[derive(Debug)]
pub struct Todos {
    pub server_api_url: String,
    pub grabbed: bool,
    pub focused: bool,
    pub expanded: bool,
    pub state: State,
    pub nocache: bool,
}

impl Todos {
    /// A fresh dock model for this server, starting from the given
    /// session state. The server URL must have been vetted: no dock
    /// model exists for a URL the dock does not accept.
    pub fn new(server_api_url: String, nocache: bool, state: State) -> (r: Todos)
        requires
            crate::urls::supported_server_url(server_api_url@),
        ensures
            r.server_api_url == server_api_url,
            !r.grabbed && !r.focused && !r.expanded,
            r.state == state,
            r.nocache == nocache,
    {
        Todos { server_api_url, grabbed: false, focused: false, expanded: false, state, nocache }
    }

    /// Vets the server URL and builds the dock model: the model when
    /// the URL parses with an `http` or `https` scheme, nothing
    /// otherwise.
    pub fn try_new(server_api_url: String, nocache: bool, state: State) -> (r: Option<Todos>)
        ensures
            match r {
                Some(t) => {
                    &&& crate::urls::supported_server_url(server_api_url@)
                    &&& t.server_api_url == server_api_url
                    &&& !t.grabbed && !t.focused && !t.expanded
                    &&& t.state == state
                    &&& t.nocache == nocache
                },
                None => !crate::urls::supported_server_url(server_api_url@),
            },
    {
        if crate::urls::server_url_supported(server_api_url.as_str()) {
            Some(Todos::new(server_api_url, nocache, state))
        } else {
            None
        }
    }
}


impl Todos {
    /// Handles one event: the whole transition table of the session
    /// state machine of the dock.
    ///
    /// The caller supplies its clock reading in milliseconds for the
    /// asserted time of outgoing operations, and a fresh random id for
    /// a task this event may create; ids must never be reused. The
    /// returned actions are performed by the caller in order.
    #[verifier::rlimit(100)]
    pub fn update(&mut self, message: Message, now_millis: u64, fresh_id: String) -> (actions:
        Vec<Action>)
        ensures
            final(self).server_api_url == old(self).server_api_url,
            final(self).nocache == old(self).nocache,
            ({
                let pre = *old(self);
                let post = *final(self);
                match message {
                    Message::FocusDock => {
                        &&& post.state == pre.state
                        &&& post.focused
                        &&& post.grabbed == pre.grabbed
                        &&& post.expanded == pre.expanded
                        &&& actions@ == (if pre.expanded && !pre.grabbed {
                            seq![Action::GrabKeyboard]
                        } else {
                            Seq::<Action>::empty()
                        })
                    },
                    Message::UnfocusDock => {
                        &&& post.state == pre.state
                        &&& !post.focused
                        &&& post.grabbed == pre.grabbed
                        &&& post.expanded == pre.expanded
                        &&& actions@ == (if pre.grabbed {
                            seq![Action::UngrabKeyboard]
                        } else {
                            Seq::<Action>::empty()
                        })
                    },
                    Message::GrabComplete(ok) => {
                        &&& post.state == pre.state
                        &&& post.focused == pre.focused
                        &&& post.expanded == pre.expanded
                        &&& post.grabbed == (if ok {
                            true
                        } else {
                            pre.grabbed
                        })
                        &&& actions@ == Seq::<Action>::empty()
                    },
                    Message::UngrabComplete(ok) => {
                        &&& post.state == pre.state
                        &&& post.focused == pre.focused
                        &&& post.expanded == pre.expanded
                        &&& post.grabbed == (if ok {
                            false
                        } else {
                            pre.grabbed
                        })
                        &&& actions@ == Seq::<Action>::empty()
                    },
                    Message::ExpandDock => {
                        &&& post.state == pre.state
                        &&& post.focused == pre.focused
                        &&& post.grabbed == pre.grabbed
                        &&& post.expanded
                        &&& actions@ == (if pre.focused {
                            seq![Action::GrabKeyboard]
                        } else {
                            Seq::<Action>::empty()
                        }) + seq![Action::Resize(EXPANDED_HEIGHT)] + (match pre.state {
                            State::NotLoggedIn(_) => seq![Action::FocusEmailInput],
                            State::Connected(_) => seq![Action::FocusMainInput],
                            _ => Seq::<Action>::empty(),
                        })
                    },
                    Message::CollapseDock => {
                        &&& post.focused == pre.focused
                        &&& post.grabbed == pre.grabbed
                        &&& !post.expanded
                        &&& (match pre.state {
                            State::Connected(c) => post.state matches State::Connected(c2)
                                && c2.api_key == c.api_key && c2.input_value@ == Seq::<
                                char,
                            >::empty() && c2.active_id_val is None && c2.snapshot == c.snapshot
                                && c2.show_finished == c.show_finished,
                            _ => post.state == pre.state,
                        })
                        &&& actions@ == (if pre.grabbed {
                            seq![Action::UngrabKeyboard]
                        } else {
                            Seq::<Action>::empty()
                        }) + seq![Action::Resize(COLLAPSED_HEIGHT)]
                    },
                    Message::EditEmail(v) => {
                        &&& same_window(pre, post)
                        &&& (match pre.state {
                            State::NotLoggedIn(s) => post.state matches State::NotLoggedIn(s2)
                                && s2.email == v && s2.password == s.password
                                && s2.view_password == s.view_password && s2.error is None,
                            _ => post.state == pre.state,
                        })
                        &&& actions@ == Seq::<Action>::empty()
                    },
                    Message::SubmitEmail => {
                        &&& *final(self) == *old(self)
                        &&& actions@ == (match pre.state {
                            State::NotLoggedIn(_) => seq![Action::FocusNextWidget],
                            _ => Seq::<Action>::empty(),
                        })
                    },
                    Message::EditPassword(v) => {
                        &&& same_window(pre, post)
                        &&& (match pre.state {
                            State::NotLoggedIn(s) => post.state matches State::NotLoggedIn(s2)
                                && s2.password == v && s2.email == s.email && s2.view_password
                                == s.view_password && s2.error is None,
                            _ => post.state == pre.state,
                        })
                        &&& actions@ == Seq::<Action>::empty()
                    },
                    Message::SubmitPassword => {
                        &&& *final(self) == *old(self)
                        &&& actions@ == (match pre.state {
                            State::NotLoggedIn(s) => if s.email@.len() > 0 && s.password@.len()
                                > 0 {
                                seq![Action::Dispatch(Message::AttemptLogin)]
                            } else {
                                seq![Action::FocusNextWidget]
                            },
                            _ => Seq::<Action>::empty(),
                        })
                    },
                    Message::TogglePasswordView => {
                        &&& same_window(pre, post)
                        &&& (match pre.state {
                            State::NotLoggedIn(s) => post.state matches State::NotLoggedIn(s2)
                                && s2.email == s.email && s2.password == s.password
                                && s2.view_password == !s.view_password && s2.error == s.error,
                            _ => post.state == pre.state,
                        })
                        &&& actions@ == Seq::<Action>::empty()
                    },
                    Message::AttemptLogin => {
                        &&& *final(self) == *old(self)
                        &&& actions@ == (match pre.state {
                            State::NotLoggedIn(s) => seq![
                                Action::Login {
                                    email: s.email,
                                    password: s.password,
                                    duration_millis: LOGIN_DURATION_MILLIS,
                                },
                            ],
                            _ => Seq::<Action>::empty(),
                        })
                    },
                    Message::LoginAttemptComplete(res) => {
                        &&& same_window(pre, post)
                        &&& (match pre.state {
                            State::NotLoggedIn(s) => match res {
                                Ok(Some(key)) => {
                                    &&& post.state matches State::NotConnected(nc)
                                        && nc.api_key == key && nc.error is None
                                    &&& (if pre.nocache {
                                        actions@ == seq![Action::Connect { api_key: key }]
                                    } else {
                                        actions@.len() == 2 && (actions@[0] matches
                                        Action::WriteCache(c) && c.api_key == key
                                            && c.server_api_url == pre.server_api_url)
                                            && actions@[1] == (Action::Connect {
                                            api_key: key,
                                        })
                                    })
                                },
                                Ok(None) => {
                                    &&& post.state matches State::NotLoggedIn(s2) && s2.email
                                        == s.email && s2.password == s.password
                                        && s2.view_password == s.view_password && (
                                    s2.error matches Some(m) && m@ == "No ApiKey returned"@)
                                    &&& actions@ == Seq::<Action>::empty()
                                },
                                Err(e) => {
                                    &&& post.state matches State::NotLoggedIn(s2) && s2.email
                                        == s.email && s2.password == s.password
                                        && s2.view_password == s.view_password && s2.error
                                        == Some(e)
                                    &&& actions@ == Seq::<Action>::empty()
                                },
                            },
                            _ => post.state == pre.state && actions@ == Seq::<Action>::empty(),
                        })
                    },
                    Message::RetryConnect => {
                        &&& same_window(pre, post)
                        &&& (match pre.state {
                            State::Restored(s) => post.state matches State::NotConnected(nc)
                                && nc.api_key == s.api_key && nc.error is None && actions@
                                == seq![Action::Connect { api_key: s.api_key }],
                            State::NotConnected(s) => post.state matches State::NotConnected(
                                nc,
                            ) && nc.api_key == s.api_key && nc.error is None && actions@
                                == seq![Action::Connect { api_key: s.api_key }],
                            _ => post.state == pre.state && actions@ == Seq::<Action>::empty(),
                        })
                    },
                    Message::ConnectAttemptComplete(res) => {
                        &&& same_window(pre, post)
                        &&& (match pre.state {
                            State::NotConnected(s) => match res {
                                Ok(u) => {
                                    &&& post.state matches State::Connected(c) && c.api_key
                                        == s.api_key && c.input_value@ == Seq::<char>::empty()
                                        && c.active_id_val is None && c.snapshot@.live == Seq::<
                                        crate::tasks::LiveTaskV,
                                    >::empty() && c.snapshot@.finished == Seq::<
                                        crate::tasks::FinishedTaskV,
                                    >::empty() && !c.show_finished
                                    &&& actions@ == seq![
                                        Action::Receive,
                                        Action::FocusMainInput,
                                    ]
                                },
                                Err(e) => {
                                    &&& post.state matches State::NotConnected(nc)
                                        && nc.api_key == s.api_key && nc.error == Some(e)
                                    &&& actions@ == Seq::<Action>::empty()
                                },
                            },
                            _ => post.state == pre.state && actions@ == Seq::<Action>::empty(),
                        })
                    },
                    Message::LogOut => {
                        &&& same_window(pre, post)
                        &&& (match pre.state {
                            State::Connected(_) => logged_out(pre, post, actions@),
                            State::NotConnected(_) => logged_out(pre, post, actions@),
                            _ => post.state == pre.state && actions@ == Seq::<Action>::empty(),
                        })
                    },
                    Message::EditInput(v) => {
                        &&& same_window(pre, post)
                        &&& (match pre.state {
                            State::Connected(c) => post.state matches State::Connected(c2)
                                && c2.api_key == c.api_key && c2.input_value == v
                                && c2.active_id_val == c.active_id_val && c2.snapshot
                                == c.snapshot && c2.show_finished == c.show_finished,
                            _ => post.state == pre.state,
                        })
                        &&& actions@ == Seq::<Action>::empty()
                    },
                    Message::SubmitInput => {
                        &&& same_window(pre, post)
                        &&& (match pre.state {
                            State::Connected(c) => {
                                &&& post.state matches State::Connected(c2) && c2.api_key
                                    == c.api_key && c2.input_value@ == Seq::<char>::empty()
                                    && c2.active_id_val == c.active_id_val && c2.snapshot
                                    == c.snapshot && c2.show_finished == c.show_finished
                                &&& (match spec_interpret(c.input_value@, c.snapshot@) {
                                    IntentV::Nop => actions@ == Seq::<Action>::empty(),
                                    IntentV::Collapse => actions@ == seq![
                                        Action::Dispatch(Message::CollapseDock),
                                    ],
                                    IntentV::ToggleFinished => actions@ == seq![
                                        Action::Dispatch(Message::ToggleFinished),
                                    ],
                                    IntentV::Submit(op) => actions@.len() == 1 && (actions@[0]
                                        matches Action::SendText(t) && t@ == sent_text(
                                        now_millis,
                                        user_op_kind(op, fresh_id@),
                                    )),
                                })
                            },
                            _ => post.state == pre.state && actions@ == Seq::<
                                Action,
                            >::empty(),
                        })
                    },
                    Message::EditActive(v) => {
                        &&& same_window(pre, post)
                        &&& (match pre.state {
                            State::Connected(c) => post.state matches State::Connected(c2)
                                && c2.api_key == c.api_key && c2.input_value == c.input_value
                                && c2.snapshot == c.snapshot && c2.show_finished
                                == c.show_finished && edit_view(c2.active_id_val) == (
                            match edit_view(c.active_id_val) {
                                Some(p) => Some((p.0, v@)),
                                None => None,
                            }),
                            _ => post.state == pre.state,
                        })
                        &&& actions@ == Seq::<Action>::empty()
                    },
                    Message::SetActive(a) => {
                        &&& same_window(pre, post)
                        &&& (match pre.state {
                            State::Connected(c) => {
                                &&& post.state matches State::Connected(c2) && c2.api_key
                                    == c.api_key && c2.input_value == c.input_value
                                    && c2.snapshot == c.snapshot && c2.show_finished
                                    == c.show_finished && (match a {
                                    Some(id2) => (match crate::tasks::find_live(
                                        c.snapshot@.live,
                                        id2@,
                                    ) {
                                        Some(i) => edit_view(c2.active_id_val) == Some(
                                            (id2@, c.snapshot@.live[i].value),
                                        ),
                                        None => c2.active_id_val is None,
                                    }),
                                    None => c2.active_id_val is None,
                                })
                                &&& (match edit_view(c.active_id_val) {
                                    Some(p) => {
                                        &&& actions@.len() == (if a is Some {
                                            2int
                                        } else {
                                            1int
                                        })
                                        &&& (actions@[0] matches Action::SendText(t) && t@
                                            == sent_text(
                                            now_millis,
                                            OpKindV::EditLiveTask { id: p.0, value: p.1 },
                                        ))
                                        &&& (a is Some ==> actions@[1]
                                            == Action::FocusActiveInput)
                                    },
                                    None => actions@ == (if a is Some {
                                        seq![Action::FocusActiveInput]
                                    } else {
                                        Seq::<Action>::empty()
                                    }),
                                })
                            },
                            _ => post.state == pre.state && actions@ == Seq::<
                                Action,
                            >::empty(),
                        })
                    },
                    Message::Op(op) => {
                        &&& *final(self) == *old(self)
                        &&& (match pre.state {
                            State::Connected(_) => actions@.len() == 1 && (actions@[0] matches
                            Action::SendText(t) && t@ == sent_text(
                                now_millis,
                                user_op_kind(op@, fresh_id@),
                            )),
                            _ => actions@ == Seq::<Action>::empty(),
                        })
                    },
                    Message::ToggleFinished => {
                        &&& same_window(pre, post)
                        &&& (match pre.state {
                            State::Connected(c) => post.state matches State::Connected(c2)
                                && c2.api_key == c.api_key && c2.input_value == c.input_value
                                && c2.active_id_val == c.active_id_val && c2.snapshot
                                == c.snapshot && c2.show_finished == !c.show_finished,
                            _ => post.state == pre.state,
                        })
                        &&& actions@ == Seq::<Action>::empty()
                    },
                    Message::WebsocketSendComplete(res) => {
                        &&& same_window(pre, post)
                        &&& (match pre.state {
                            State::Connected(c) => match res {
                                Ok(u) => post.state == pre.state && actions@ == Seq::<
                                    Action,
                                >::empty(),
                                Err(e) => post.state matches State::NotConnected(nc)
                                    && nc.api_key == c.api_key && nc.error == Some(e)
                                    && actions@ == Seq::<Action>::empty(),
                            },
                            _ => post.state == pre.state && actions@ == Seq::<Action>::empty(),
                        })
                    },
                    Message::WebsocketRecvComplete(res) => {
                        &&& same_window(pre, post)
                        &&& (match pre.state {
                            State::Connected(c) => match res {
                                None => lost_connection(
                                    c.api_key,
                                    "Lost connection"@,
                                    post,
                                    actions@,
                                ),
                                Some(Err(e)) => post.state matches State::NotConnected(nc)
                                    && nc.api_key == c.api_key && nc.error == Some(e)
                                    && actions@ == Seq::<Action>::empty(),
                                Some(Ok(m)) => match m {
                                    WsMessage::Text(t) => match parse_op(t@) {
                                        Some(opv) => {
                                            &&& post.state matches State::Connected(c2)
                                                && c2.api_key == c.api_key && c2.input_value
                                                == c.input_value && c2.show_finished
                                                == c.show_finished && (c2.snapshot@,
                                            edit_view(c2.active_id_val)) == apply_kind(
                                                c.snapshot@,
                                                edit_view(c.active_id_val),
                                                opv.kind,
                                            )
                                            &&& actions@ == seq![Action::Receive]
                                        },
                                        None => lost_connection(
                                            c.api_key,
                                            "malformed operation"@,
                                            post,
                                            actions@,
                                        ),
                                    },
                                    WsMessage::Ping(d) => post.state == pre.state && actions@
                                        == seq![Action::Receive, Action::SendPong(d)],
                                    WsMessage::Binary(_) => post.state == pre.state
                                        && actions@ == seq![Action::Receive],
                                    WsMessage::Pong(_) => post.state == pre.state && actions@
                                        == seq![Action::Receive],
                                    WsMessage::Close(f) => match f {
                                        Some(reason) => if reason@ == "Unauthorized"@ {
                                            logged_out(pre, post, actions@)
                                        } else {
                                            post.state matches State::NotConnected(nc)
                                                && nc.api_key == c.api_key && nc.error
                                                == Some(reason) && actions@ == Seq::<
                                                Action,
                                            >::empty()
                                        },
                                        None => lost_connection(
                                            c.api_key,
                                            "connection closed unexpectedly"@,
                                            post,
                                            actions@,
                                        ),
                                    },
                                },
                            },
                            _ => post.state == pre.state && actions@ == Seq::<Action>::empty(),
                        })
                    },
                }
            }),
    {
        let mut actions: Vec<Action> = Vec::new();
        match message {
            Message::FocusDock => {
                self.focused = true;
                if self.expanded && !self.grabbed {
                    actions.push(Action::GrabKeyboard);
                    proof {
                        assert(actions@ =~= seq![Action::GrabKeyboard]);
                    }
                } else {
                    proof {
                        assert(actions@ =~= Seq::<Action>::empty());
                    }
                }
            },
            Message::UnfocusDock => {
                self.focused = false;
                if self.grabbed {
                    actions.push(Action::UngrabKeyboard);
                    proof {
                        assert(actions@ =~= seq![Action::UngrabKeyboard]);
                    }
                } else {
                    proof {
                        assert(actions@ =~= Seq::<Action>::empty());
                    }
                }
            },
            Message::GrabComplete(ok) => {
                if ok {
                    self.grabbed = true;
                }
                proof {
                    assert(actions@ =~= Seq::<Action>::empty());
                }
            },
            Message::UngrabComplete(ok) => {
                if ok {
                    self.grabbed = false;
                }
                proof {
                    assert(actions@ =~= Seq::<Action>::empty());
                }
            },
            Message::ExpandDock => {
                self.expanded = true;
                let ghost grab_part: Seq<Action> = if self.focused {
                    seq![Action::GrabKeyboard]
                } else {
                    Seq::<Action>::empty()
                };
                if self.focused {
                    actions.push(Action::GrabKeyboard);
                }
                actions.push(Action::Resize(EXPANDED_HEIGHT));
                match &self.state {
                    State::NotLoggedIn(_) => {
                        actions.push(Action::FocusEmailInput);
                        proof {
                            assert(actions@ =~= grab_part + seq![
                                Action::Resize(EXPANDED_HEIGHT),
                            ] + seq![Action::FocusEmailInput]);
                        }
                    },
                    State::Connected(_) => {
                        actions.push(Action::FocusMainInput);
                        proof {
                            assert(actions@ =~= grab_part + seq![
                                Action::Resize(EXPANDED_HEIGHT),
                            ] + seq![Action::FocusMainInput]);
                        }
                    },
                    _ => {
                        proof {
                            assert(actions@ =~= grab_part + seq![
                                Action::Resize(EXPANDED_HEIGHT),
                            ] + Seq::<Action>::empty());
                        }
                    },
                }
            },
            Message::CollapseDock => {
                self.expanded = false;
                let ghost ungrab_part: Seq<Action> = if self.grabbed {
                    seq![Action::UngrabKeyboard]
                } else {
                    Seq::<Action>::empty()
                };
                if self.grabbed {
                    actions.push(Action::UngrabKeyboard);
                }
                match &mut self.state {
                    State::Connected(c) => {
                        c.input_value = String::new();
                        c.active_id_val = None;
                    },
                    _ => {},
                }
                actions.push(Action::Resize(COLLAPSED_HEIGHT));
                proof {
                    assert(actions@ =~= ungrab_part + seq![Action::Resize(COLLAPSED_HEIGHT)]);
                }
            },
            Message::EditEmail(v) => {
                match &mut self.state {
                    State::NotLoggedIn(s) => {
                        s.email = v;
                        s.error = None;
                    },
                    _ => {},
                }
                proof {
                    assert(actions@ =~= Seq::<Action>::empty());
                }
            },
            Message::SubmitEmail => {
                match &self.state {
                    State::NotLoggedIn(_) => {
                        actions.push(Action::FocusNextWidget);
                        proof {
                            assert(actions@ =~= seq![Action::FocusNextWidget]);
                        }
                    },
                    _ => {
                        proof {
                            assert(actions@ =~= Seq::<Action>::empty());
                        }
                    },
                }
            },
            Message::EditPassword(v) => {
                match &mut self.state {
                    State::NotLoggedIn(s) => {
                        s.password = v;
                        s.error = None;
                    },
                    _ => {},
                }
                proof {
                    assert(actions@ =~= Seq::<Action>::empty());
                }
            },
            Message::SubmitPassword => {
                match &self.state {
                    State::NotLoggedIn(s) => {
                        if !s.email.as_str().is_empty() && !s.password.as_str().is_empty() {
                            actions.push(Action::Dispatch(Message::AttemptLogin));
                            proof {
                                assert(actions@ =~= seq![
                                    Action::Dispatch(Message::AttemptLogin),
                                ]);
                            }
                        } else {
                            actions.push(Action::FocusNextWidget);
                            proof {
                                assert(actions@ =~= seq![Action::FocusNextWidget]);
                            }
                        }
                    },
                    _ => {
                        proof {
                            assert(actions@ =~= Seq::<Action>::empty());
                        }
                    },
                }
            },
            Message::TogglePasswordView => {
                match &mut self.state {
                    State::NotLoggedIn(s) => {
                        s.view_password = !s.view_password;
                    },
                    _ => {},
                }
                proof {
                    assert(actions@ =~= Seq::<Action>::empty());
                }
            },
            Message::AttemptLogin => {
                match &self.state {
                    State::NotLoggedIn(s) => {
                        actions.push(
                            Action::Login {
                                email: s.email.clone(),
                                password: s.password.clone(),
                                duration_millis: LOGIN_DURATION_MILLIS,
                            },
                        );
                        proof {
                            assert(actions@ =~= seq![
                                Action::Login {
                                    email: s.email,
                                    password: s.password,
                                    duration_millis: LOGIN_DURATION_MILLIS,
                                },
                            ]);
                        }
                    },
                    _ => {
                        proof {
                            assert(actions@ =~= Seq::<Action>::empty());
                        }
                    },
                }
            },
            Message::LoginAttemptComplete(res) => {
                let is_form = match &self.state {
                    State::NotLoggedIn(_) => true,
                    _ => false,
                };
                if is_form {
                    match res {
                        Ok(Some(key)) => {
                            if !self.nocache {
                                actions.push(
                                    Action::WriteCache(
                                        TodosCache {
                                            server_api_url: self.server_api_url.clone(),
                                            api_key: key.clone(),
                                        },
                                    ),
                                );
                            }
                            actions.push(Action::Connect { api_key: key.clone() });
                            self.state = State::not_connected(key, None);
                            proof {
                                if old(self).nocache {
                                    assert(actions@ =~= seq![
                                        Action::Connect { api_key: actions@[0]->Connect_api_key },
                                    ]);
                                }
                            }
                        },
                        Ok(None) => {
                            match &mut self.state {
                                State::NotLoggedIn(s) => {
                                    s.error = Some(String::from_str("No ApiKey returned"));
                                },
                                _ => {},
                            }
                            proof {
                                assert(actions@ =~= Seq::<Action>::empty());
                            }
                        },
                        Err(e) => {
                            match &mut self.state {
                                State::NotLoggedIn(s) => {
                                    s.error = Some(e);
                                },
                                _ => {},
                            }
                            proof {
                                assert(actions@ =~= Seq::<Action>::empty());
                            }
                        },
                    }
                } else {
                    proof {
                        assert(actions@ =~= Seq::<Action>::empty());
                    }
                }
            },
            Message::RetryConnect => {
                let key: Option<String> = match &self.state {
                    State::Restored(s) => Some(s.api_key.clone()),
                    State::NotConnected(s) => Some(s.api_key.clone()),
                    _ => None,
                };
                match key {
                    Some(api_key) => {
                        self.state = State::not_connected(api_key.clone(), None);
                        actions.push(Action::Connect { api_key });
                        proof {
                            assert(actions@ =~= seq![
                                Action::Connect { api_key: actions@[0]->Connect_api_key },
                            ]);
                        }
                    },
                    None => {
                        proof {
                            assert(actions@ =~= Seq::<Action>::empty());
                        }
                    },
                }
            },
            Message::ConnectAttemptComplete(res) => {
                let key: Option<String> = match &self.state {
                    State::NotConnected(s) => Some(s.api_key.clone()),
                    _ => None,
                };
                match key {
                    Some(api_key) => {
                        match res {
                            Ok(()) => {
                                self.state = State::Connected(
                                    ConnectedState {
                                        api_key,
                                        input_value: String::new(),
                                        active_id_val: None,
                                        snapshot: StateSnapshot::new(),
                                        show_finished: false,
                                    },
                                );
                                actions.push(Action::Receive);
                                actions.push(Action::FocusMainInput);
                                proof {
                                    assert(actions@ =~= seq![
                                        Action::Receive,
                                        Action::FocusMainInput,
                                    ]);
                                }
                            },
                            Err(e) => {
                                self.state = State::not_connected(api_key, Some(e));
                                proof {
                                    assert(actions@ =~= Seq::<Action>::empty());
                                }
                            },
                        }
                    },
                    None => {
                        proof {
                            assert(actions@ =~= Seq::<Action>::empty());
                        }
                    },
                }
            },
            Message::LogOut => {
                let applies = match &self.state {
                    State::Connected(_) => true,
                    State::NotConnected(_) => true,
                    _ => false,
                };
                if applies {
                    if !self.nocache {
                        actions.push(Action::DeleteCache);
                        proof {
                            assert(actions@ =~= seq![Action::DeleteCache]);
                        }
                    } else {
                        proof {
                            assert(actions@ =~= Seq::<Action>::empty());
                        }
                    }
                    self.state = State::not_logged_in();
                } else {
                    proof {
                        assert(actions@ =~= Seq::<Action>::empty());
                    }
                }
            },
            Message::EditInput(v) => {
                match &mut self.state {
                    State::Connected(c) => {
                        c.input_value = v;
                    },
                    _ => {},
                }
                proof {
                    assert(actions@ =~= Seq::<Action>::empty());
                }
            },
            Message::SubmitInput => {
                match &mut self.state {
                    State::Connected(c) => {
                        let val = c.input_value.clone();
                        c.input_value = String::new();
                        let intent = interpret(&val, &c.snapshot);
                        match intent {
                            Intent::Nop => {
                                proof {
                                    assert(actions@ =~= Seq::<Action>::empty());
                                }
                            },
                            Intent::Collapse => {
                                actions.push(Action::Dispatch(Message::CollapseDock));
                                proof {
                                    assert(actions@ =~= seq![
                                        Action::Dispatch(Message::CollapseDock),
                                    ]);
                                }
                            },
                            Intent::ToggleFinished => {
                                actions.push(Action::Dispatch(Message::ToggleFinished));
                                proof {
                                    assert(actions@ =~= seq![
                                        Action::Dispatch(Message::ToggleFinished),
                                    ]);
                                }
                            },
                            Intent::Submit(op) => {
                                actions.push(send_op_action(op, now_millis, fresh_id));
                                proof {
                                    assert(actions@ =~= seq![actions@[0]]);
                                }
                            },
                        }
                    },
                    _ => {
                        proof {
                            assert(actions@ =~= Seq::<Action>::empty());
                        }
                    },
                }
            },
            Message::EditActive(v) => {
                match &mut self.state {
                    State::Connected(c) => {
                        match &c.active_id_val {
                            Some(p) => {
                                let id = p.0.clone();
                                c.active_id_val = Some((id, v));
                            },
                            None => {},
                        }
                    },
                    _ => {},
                }
                proof {
                    assert(actions@ =~= Seq::<Action>::empty());
                }
            },
            Message::SetActive(a) => {
                match &mut self.state {
                    State::Connected(c) => {
                        let ghost commit_part: Seq<Action>;
                        match &c.active_id_val {
                            Some(p) => {
                                let act = send_op_action(
                                    Op::Edit(p.0.clone(), p.1.clone()),
                                    now_millis,
                                    fresh_id,
                                );
                                actions.push(act);
                                proof {
                                    commit_part = seq![actions@[0]];
                                    assert(actions@ =~= commit_part);
                                }
                            },
                            None => {
                                proof {
                                    commit_part = Seq::<Action>::empty();
                                    assert(actions@ =~= commit_part);
                                }
                            },
                        }
                        match a {
                            Some(id2) => {
                                match crate::tasks::position_in_live(&c.snapshot.live, &id2) {
                                    Some(i) => {
                                        proof {
                                            crate::tasks::lemma_find_live_from(
                                                c.snapshot@.live,
                                                id2@,
                                                0,
                                            );
                                        }
                                        let value = c.snapshot.live[i].value.clone();
                                        c.active_id_val = Some((id2, value));
                                    },
                                    None => {
                                        c.active_id_val = None;
                                    },
                                }
                                actions.push(Action::FocusActiveInput);
                                proof {
                                    assert(actions@ =~= commit_part + seq![
                                        Action::FocusActiveInput,
                                    ]);
                                }
                            },
                            None => {
                                c.active_id_val = None;
                                proof {
                                    assert(actions@ =~= commit_part + Seq::<Action>::empty());
                                }
                            },
                        }
                    },
                    _ => {
                        proof {
                            assert(actions@ =~= Seq::<Action>::empty());
                        }
                    },
                }
            },
            Message::Op(op) => {
                match &self.state {
                    State::Connected(_) => {
                        actions.push(send_op_action(op, now_millis, fresh_id));
                        proof {
                            assert(actions@ =~= seq![actions@[0]]);
                        }
                    },
                    _ => {
                        proof {
                            assert(actions@ =~= Seq::<Action>::empty());
                        }
                    },
                }
            },
            Message::ToggleFinished => {
                match &mut self.state {
                    State::Connected(c) => {
                        c.show_finished = !c.show_finished;
                    },
                    _ => {},
                }
                proof {
                    assert(actions@ =~= Seq::<Action>::empty());
                }
            },
            Message::WebsocketSendComplete(res) => {
                let key: Option<String> = match &self.state {
                    State::Connected(c) => Some(c.api_key.clone()),
                    _ => None,
                };
                match (key, res) {
                    (Some(api_key), Err(e)) => {
                        self.state = State::not_connected(api_key, Some(e));
                    },
                    _ => {},
                }
                proof {
                    assert(actions@ =~= Seq::<Action>::empty());
                }
            },
            Message::WebsocketRecvComplete(res) => {
                let connected = match &self.state {
                    State::Connected(_) => true,
                    _ => false,
                };
                if connected {
                    self.recv_complete(res, &mut actions);
                } else {
                    proof {
                        assert(actions@ =~= Seq::<Action>::empty());
                    }
                }
            },
        }
        actions
    }
}

impl Todos {
    /// Handles the outcome of a receive while connected: applies a
    /// decoded operation to the snapshot, answers a ping on the shared
    /// send path, and classifies every failure as the state machine
    /// requires. Only an unauthorized close abandons the credentials.
    #[verifier::rlimit(60)]
    fn recv_complete(&mut self, res: Option<Result<WsMessage, String>>, actions: &mut Vec<
        Action,
    >)
        requires
            old(self).state is Connected,
            old(actions)@ == Seq::<Action>::empty(),
        ensures
            final(self).server_api_url == old(self).server_api_url,
            final(self).nocache == old(self).nocache,
            same_window(*old(self), *final(self)),
            ({
                let pre = *old(self);
                let post = *final(self);
                let c = pre.state->Connected_0;
                let acts = final(actions)@;
                match res {
                    None => lost_connection(c.api_key, "Lost connection"@, post, acts),
                    Some(Err(e)) => post.state matches State::NotConnected(nc) && nc.api_key
                        == c.api_key && nc.error == Some(e) && acts == Seq::<Action>::empty(),
                    Some(Ok(m)) => match m {
                        WsMessage::Text(t) => match parse_op(t@) {
                            Some(opv) => {
                                &&& post.state matches State::Connected(c2) && c2.api_key
                                    == c.api_key && c2.input_value == c.input_value
                                    && c2.show_finished == c.show_finished && (c2.snapshot@,
                                edit_view(c2.active_id_val)) == apply_kind(
                                    c.snapshot@,
                                    edit_view(c.active_id_val),
                                    opv.kind,
                                )
                                &&& acts == seq![Action::Receive]
                            },
                            None => lost_connection(
                                c.api_key,
                                "malformed operation"@,
                                post,
                                acts,
                            ),
                        },
                        WsMessage::Ping(d) => post == pre && acts == seq![
                            Action::Receive,
                            Action::SendPong(d),
                        ],
                        WsMessage::Binary(_) => post == pre && acts == seq![Action::Receive],
                        WsMessage::Pong(_) => post == pre && acts == seq![Action::Receive],
                        WsMessage::Close(f) => match f {
                            Some(reason) => if reason@ == "Unauthorized"@ {
                                logged_out(pre, post, acts)
                            } else {
                                post.state matches State::NotConnected(nc) && nc.api_key
                                    == c.api_key && nc.error == Some(reason) && acts == Seq::<
                                    Action,
                                >::empty()
                            },
                            None => lost_connection(
                                c.api_key,
                                "connection closed unexpectedly"@,
                                post,
                                acts,
                            ),
                        },
                    },
                }
            }),
    {
        let api_key = match &self.state {
            State::Connected(c) => c.api_key.clone(),
            _ => String::new(),
        };
        match res {
            None => {
                self.state = State::not_connected(
                    api_key,
                    Some(String::from_str("Lost connection")),
                );
            },
            Some(Err(e)) => {
                self.state = State::not_connected(api_key, Some(e));
            },
            Some(Ok(m)) => match m {
                WsMessage::Text(t) => match decode_op(t.as_str()) {
                    Some(op) => {
                        match &mut self.state {
                            State::Connected(c) => {
                                let WebsocketOp { kind, .. } = op;
                                crate::tasks::apply_operation(
                                    &mut c.snapshot,
                                    &mut c.active_id_val,
                                    kind,
                                );
                            },
                            _ => {},
                        }
                        actions.push(Action::Receive);
                        proof {
                            assert(actions@ =~= seq![Action::Receive]);
                        }
                    },
                    None => {
                        self.state = State::not_connected(
                            api_key,
                            Some(String::from_str("malformed operation")),
                        );
                    },
                },
                WsMessage::Ping(d) => {
                    actions.push(Action::Receive);
                    actions.push(Action::SendPong(d));
                    proof {
                        assert(actions@ =~= seq![Action::Receive, Action::SendPong(
                            actions@[1]->SendPong_0,
                        )]);
                    }
                },
                WsMessage::Binary(_) => {
                    actions.push(Action::Receive);
                    proof {
                        assert(actions@ =~= seq![Action::Receive]);
                    }
                },
                WsMessage::Pong(_) => {
                    actions.push(Action::Receive);
                    proof {
                        assert(actions@ =~= seq![Action::Receive]);
                    }
                },
                WsMessage::Close(f) => match f {
                    Some(reason) => {
                        if crate::urls::str_eq(reason.as_str(), "Unauthorized") {
                            if !self.nocache {
                                actions.push(Action::DeleteCache);
                                proof {
                                    assert(actions@ =~= seq![Action::DeleteCache]);
                                }
                            }
                            self.state = State::not_logged_in();
                        } else {
                            self.state = State::not_connected(api_key, Some(reason));
                        }
                    },
                    None => {
                        self.state = State::not_connected(
                            api_key,
                            Some(String::from_str("connection closed unexpectedly")),
                        );
                    },
                },
            },
        }
    }
}

/// Left the session entirely: the login form is empty, and the cached
/// credentials are removed when caching is on.
pub open spec fn logged_out(pre: Todos, post: Todos, actions: Seq<Action>) -> bool {
    &&& post.state matches State::NotLoggedIn(s) && s.email@ == Seq::<char>::empty()
        && s.password@ == Seq::<char>::empty() && !s.view_password && s.error is None
    &&& actions == (if pre.nocache {
        Seq::<Action>::empty()
    } else {
        seq![Action::DeleteCache]
    })
}

/// Fell back to the disconnected state with this displayable reason;
/// credentials are retained and nothing is performed.
pub open spec fn lost_connection(
    api_key: String,
    reason: Seq<char>,
    post: Todos,
    actions: Seq<Action>,
) -> bool {
    &&& post.state matches State::NotConnected(nc) && nc.api_key == api_key && (
    nc.error matches Some(m) && m@ == reason)
    &&& actions == Seq::<Action>::empty()
}

/// The window fields that a session event never touches.
pub open spec fn same_window(pre: Todos, post: Todos) -> bool {
    &&& post.grabbed == pre.grabbed
    &&& post.focused == pre.focused
    &&& post.expanded == pre.expanded
}



/// Whether an HTTP status is in the success range.
pub open spec fn http_success(status: u16) -> bool {
    200 <= status <= 299
}

/// Classifies one HTTP exchange of the login flow: a success status
/// passes the body through for the caller to read, every other status
/// becomes the displayable error text `status: body`.
pub fn classify_login_response(status: u16, body: String) -> (r: Result<String, String>)
    ensures
        http_success(status) ==> r == Result::<String, String>::Ok(body),
        !http_success(status) ==> (r matches Err(e) && e@ == crate::wire::dec(status as nat)
            + ": "@ + body@),
{
    if 200 <= status && status <= 299 {
        Ok(body)
    } else {
        let mut out = String::new();
        crate::codec::push_u64(&mut out, status as u64);
        out.append(": ");
        out.append(body.as_str());
        proof {
            assert(out@ =~= crate::wire::dec(status as nat) + ": "@ + body@);
        }
        Err(out)
    }
}

} // verus!
