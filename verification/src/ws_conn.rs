use crate::app_node::{retain_live, AppNode, AppNodeView, SessionUser};
use crate::domain::ApplicationUse;
use crate::router::{session_key, session_key_of};
use crate::session_manager::SessionManager;
use crate::json_text::{json_string_of, push_json_string};
use crate::text::{clone_opt_text, opt_text, random_id};
use vstd::prelude::*;
use vstd::string::*;

verus! {

/// The parameters of a connect request.
#[derive(Debug, PartialEq, Eq)]
pub struct WsQuery {
    pub token: Option<String>,
    pub app_id: Option<String>,
    pub user_id: Option<String>,
}

/// A control message that a client sends over its connection.
#[derive(Debug, PartialEq, Eq)]
pub struct WsContext {
    pub code: i32,
    pub message: Option<String>,
    pub data: Option<String>,
    pub client_id: Option<String>,
}

/// The body of a push to one connection.
#[derive(Debug, PartialEq, Eq)]
pub struct PushRequest {
    pub code: i32,
    pub message: Option<String>,
    pub data: Option<String>,
    pub client_id: Option<String>,
    pub user_id: Option<String>,
    pub app_id: Option<String>,
}

/// A text on its way to the client of a connection.
#[derive(Debug, PartialEq, Eq)]
pub struct ServerText(pub String);

/// Where a connection stands in its life.
#[derive(Debug, Clone, Copy, PartialEq, Eq, Structural)]
pub enum ConnState {
    Connecting,
    Authenticating,
    Active,
    Closing,
    Stopped,
}

/// Why a connection was not authenticated.
#[derive(Debug, Clone, Copy, PartialEq, Eq, Structural)]
pub enum AuthFailure {
    /// The application is not known.
    InvalidApp,
    /// The authentication endpoint could not be reached or did not answer
    /// with a document.
    AuthServerError,
    /// The answer of the authentication endpoint lacks a code or a user.
    InvalidResponse,
    /// The authentication endpoint refused the token.
    TokenRejected,
    /// The session record could not be read or written.
    SessionStore,
}

/// What is done with a text on its way to the client.
#[derive(Debug, Clone, Copy, PartialEq, Eq, Structural)]
pub enum OutboundKind {
    /// The text is sent to the client.
    Deliver,
    /// The connection is closed; the text is not sent.
    Close,
}

/// What is done with a text on its way to the client, with the text where it
/// is sent.
#[derive(Debug, PartialEq, Eq)]
pub enum Outbound {
    Deliver(String),
    Close,
}

/// One frame that a client sent. A text frame comes with the control message
/// that it holds, where it holds one.
#[derive(Debug, PartialEq, Eq)]
pub enum WsFrame {
    Text(String, Option<WsContext>),
    Close,
    Other,
}

/// What a connection does on a frame from its client.
#[derive(Debug, PartialEq, Eq)]
pub enum FrameAction {
    /// Close the connection.
    Close,
    /// Stop the connection.
    Stop,
    /// Send the text back to the client.
    Echo(String),
    /// Hand the text to the connection with the given identifier.
    Private(String, String),
}

/// One live connection of a client.
#[derive(Debug, PartialEq, Eq)]
pub struct WsConn {
    pub token: Option<String>,
    pub app_id: Option<String>,
    pub session_id: String,
    pub client_id: Option<String>,
    pub user_id: Option<String>,
    pub state: ConnState,
    /// The key of the session record that holds this connection's entry,
    /// once the connection has entered one.
    pub record_key: Option<String>,
}

/// What a connection that is to be authenticated hands to the
/// authentication: the application, the client's token, and the identifier
/// of the connection.
#[derive(Debug, PartialEq, Eq)]
pub struct AuthRequest {
    pub app_id: String,
    pub token: String,
    pub session_id: String,
}

/// Where an authenticated connection enters the session directory: the key
/// of the user's record, and the entry that the record gains.
#[derive(Debug, PartialEq, Eq)]
pub struct SessionJoin {
    pub key: String,
    pub node: AppNode,
}

/// The frame that tells a client why it was not authenticated.
pub open spec fn failure_frame_of(why: AuthFailure) -> Seq<char> {
    match why {
        AuthFailure::InvalidApp => "{\"code\":401,\"message\":\"Invalid app_id\"}"@,
        AuthFailure::AuthServerError => "{\"code\":401,\"message\":\"Auth server error\"}"@,
        AuthFailure::InvalidResponse => "{\"code\":401,\"message\":\"Invalid response from auth server\"}"@,
        AuthFailure::TokenRejected => "{\"code\":401,\"message\":\"Token validation failed\"}"@,
        AuthFailure::SessionStore => "{\"code\":401,\"message\":\"Session update failed\"}"@,
    }
}

/// The body of the request to the authentication endpoint: the JSON object
/// with the two fields `token` and `appToken`, each a JSON string.
pub open spec fn auth_body_of(token: Seq<char>, app_token: Seq<char>) -> Seq<char> {
    "{\"token\":"@ + json_string_of(token) + ",\"appToken\":"@ + json_string_of(app_token)
        + "}"@
}

/// Why the answer of the authentication endpoint does not authenticate, if
/// it does not: it has to carry the code 200 and a user.
pub open spec fn reply_failure(code: Option<i64>, has_user: bool) -> Option<AuthFailure> {
    match code {
        None => Some(AuthFailure::InvalidResponse),
        Some(c) => if c != 200 {
            Some(AuthFailure::TokenRejected)
        } else if !has_user {
            Some(AuthFailure::InvalidResponse)
        } else {
            None
        },
    }
}

/// What is done with a text on its way to the client, given the integer
/// that its field `code` holds when it is read as a JSON document: a text
/// with the code 401 closes the connection, and every other text is sent.
pub open spec fn outbound_kind(code: Option<i64>) -> OutboundKind {
    if code == Some(401i64) {
        OutboundKind::Close
    } else {
        OutboundKind::Deliver
    }
}

/// The integer that the field `field` of the JSON document `text` holds:
/// `None` where `text` is no JSON document, where the document has no such
/// field, and where the field holds no integer that fits 64 bits with sign.
pub uninterp spec fn json_int_at(text: Seq<char>, field: Seq<char>) -> Option<i64>;

/// Reads `text` as a JSON document and returns the integer in its field
/// `field`.
///
/// Trusted: `serde_json::from_str` reads the document, `Value::get` looks the
/// field up and `Value::as_i64` takes the integer; each returns nothing
/// where it fails. The result depends on the two arguments alone.
#[verifier::external_body]
fn json_int_field(text: &str, field: &str) -> (found: Option<i64>)
    ensures
        found == json_int_at(text@, field@),
{
    let parsed: Result<serde_json::Value, serde_json::Error> = serde_json::from_str(text);
    match parsed {
        Ok(document) => match document.get(field) {
            Some(value) => value.as_i64(),
            None => None,
        },
        Err(_) => None,
    }
}

/// The frame that tells a client why it was not authenticated.
pub fn failure_frame(why: AuthFailure) -> (frame: String)
    ensures
        frame@ == failure_frame_of(why),
{
    match why {
        AuthFailure::InvalidApp => String::from_str("{\"code\":401,\"message\":\"Invalid app_id\"}"),
        AuthFailure::AuthServerError => String::from_str(
            "{\"code\":401,\"message\":\"Auth server error\"}",
        ),
        AuthFailure::InvalidResponse => String::from_str(
            "{\"code\":401,\"message\":\"Invalid response from auth server\"}",
        ),
        AuthFailure::TokenRejected => String::from_str(
            "{\"code\":401,\"message\":\"Token validation failed\"}",
        ),
        AuthFailure::SessionStore => String::from_str(
            "{\"code\":401,\"message\":\"Session update failed\"}",
        ),
    }
}

/// The body of the request to the authentication endpoint: the JSON object
/// with the two fields `token` and `appToken`.
pub fn auth_request_body(token: &String, app_token: &String) -> (data: String)
    ensures
        data@ == auth_body_of(token@, app_token@),
{
    let mut data = String::from_str("{\"token\":");
    push_json_string(&mut data, token.as_str());
    data.append(",\"appToken\":");
    push_json_string(&mut data, app_token.as_str());
    data.append("}");
    data
}

/// What is done with a text on its way to the client, given the integer
/// that its field `code` holds.
pub fn classify_outbound(code: Option<i64>) -> (kind: OutboundKind)
    ensures
        kind == outbound_kind(code),
{
    match code {
        Some(c) => if c == 401 {
            OutboundKind::Close
        } else {
            OutboundKind::Deliver
        },
        None => OutboundKind::Deliver,
    }
}

/// Where the authentication of a connection ended.
#[derive(Debug, PartialEq, Eq)]
pub enum AuthEnd {
    /// The application was not found.
    UnknownApp,
    /// The authentication endpoint gave no answer that is a document.
    NoAnswer,
    /// The authentication endpoint answered, and its answer does not
    /// authenticate.
    Refused(AuthFailure),
    /// The session record of the user could not be read.
    RecordUnreadable,
    /// The session record of the user could not be written.
    RecordNotWritten,
    /// The connection has entered the record with the given key.
    Joined(String),
}

/// What the authentication of a connection comes to, given where it ended:
/// the key of the record that the connection has entered, or the failure
/// that the client is told.
pub fn auth_outcome(end: AuthEnd) -> (outcome: Result<String, AuthFailure>)
    ensures
        match end {
            AuthEnd::UnknownApp => outcome == Err::<String, AuthFailure>(AuthFailure::InvalidApp),
            AuthEnd::NoAnswer => outcome == Err::<String, AuthFailure>(
                AuthFailure::AuthServerError,
            ),
            AuthEnd::Refused(why) => outcome == Err::<String, AuthFailure>(why),
            AuthEnd::RecordUnreadable => outcome == Err::<String, AuthFailure>(
                AuthFailure::SessionStore,
            ),
            AuthEnd::RecordNotWritten => outcome == Err::<String, AuthFailure>(
                AuthFailure::SessionStore,
            ),
            AuthEnd::Joined(key) => outcome == Ok::<String, AuthFailure>(key),
        },
{
    match end {
        AuthEnd::UnknownApp => Err(AuthFailure::InvalidApp),
        AuthEnd::NoAnswer => Err(AuthFailure::AuthServerError),
        AuthEnd::Refused(why) => Err(why),
        AuthEnd::RecordUnreadable => Err(AuthFailure::SessionStore),
        AuthEnd::RecordNotWritten => Err(AuthFailure::SessionStore),
        AuthEnd::Joined(key) => Ok(key),
    }
}

/// Decides on the answer of the authentication endpoint, of which `code` and
/// `user_id` are the code and the user that it carries. Where it
/// authenticates, the result says where the connection of `request` enters
/// the session directory as a connection of the node `(ip, port)`.
pub fn validate_and_update_session(
    request: &AuthRequest,
    app: &ApplicationUse,
    code: Option<i64>,
    user_id: &Option<String>,
    ip: &String,
    port: u16,
) -> (joined: Result<SessionJoin, AuthFailure>)
    ensures
        match joined {
            Ok(join) => reply_failure(code, user_id.is_some()).is_none() && join.key@
                == session_key_of(app.app_id@, user_id.unwrap()@) && join.node@ == (AppNodeView {
                ip: ip@,
                port,
                session_id: request.session_id@,
            }),
            Err(why) => reply_failure(code, user_id.is_some()) == Some(why),
        },
{
    match code {
        None => Err(AuthFailure::InvalidResponse),
        Some(c) => {
            if c != 200 {
                Err(AuthFailure::TokenRejected)
            } else {
                match user_id {
                    None => Err(AuthFailure::InvalidResponse),
                    Some(user) => {
                        let node = AppNode::new(ip.clone(), port, request.session_id.clone());
                        Ok(SessionJoin { key: session_key(&app.app_id, user), node })
                    },
                }
            }
        },
    }
}

/// The record of a user who had none: the one entry `node`.
pub fn create_new_session(node: AppNode) -> (record: SessionUser)
    ensures
        record@ == seq![node@],
{
    let mut nodes: Vec<AppNode> = Vec::new();
    nodes.push(node);
    let record = SessionUser::new(nodes);
    assert(record@ =~= seq![node@]);
    record
}

/// The record of a user who gains the entry `node` on the node `(ip, port)`:
/// the stale entries of that node are dropped from the record, then `node`
/// is added at the end.
pub fn update_existing_session<H>(
    cached_session: SessionUser,
    node: AppNode,
    ip: &String,
    port: u16,
    manager: &SessionManager<H>,
) -> (record: SessionUser)
    ensures
        record@ == retain_live(cached_session@, ip@, port, manager@.dom()).push(node@),
{
    let mut record = cached_session;
    record.cleanup_stale_nodes(ip, port, manager);
    record.add_node(node);
    record
}

/// The user's record after the connection has entered it: `cached_session`
/// is the record that the directory holds, if it holds one.
pub open spec fn joined_record(
    cached_session: Option<Seq<AppNodeView>>,
    node: AppNodeView,
    ip: Seq<char>,
    port: u16,
    live: Set<Seq<char>>,
) -> Seq<AppNodeView> {
    match cached_session {
        Some(nodes) => retain_live(nodes, ip, port, live).push(node),
        None => seq![node],
    }
}

/// Enters `node` into the user's record: the record is brought up to date
/// where the directory holds one, and created where it holds none.
pub fn join_session<H>(
    cached_session: Option<SessionUser>,
    node: AppNode,
    ip: &String,
    port: u16,
    manager: &SessionManager<H>,
) -> (record: SessionUser)
    ensures
        record@ == joined_record(
            match cached_session {
                Some(r) => Some(r@),
                None => None,
            },
            node@,
            ip@,
            port,
            manager@.dom(),
        ),
{
    match cached_session {
        Some(r) => update_existing_session(r, node, ip, port, manager),
        None => create_new_session(node),
    }
}

/// How far a connection has come in its life.
pub open spec fn state_rank(state: ConnState) -> nat {
    match state {
        ConnState::Connecting => 0,
        ConnState::Authenticating => 1,
        ConnState::Active => 2,
        ConnState::Closing => 3,
        ConnState::Stopped => 4,
    }
}

/// The state of a connection that has been told to close: it is closing,
/// unless it has stopped already.
pub open spec fn closing_from(state: ConnState) -> ConnState {
    if state == ConnState::Stopped {
        ConnState::Stopped
    } else {
        ConnState::Closing
    }
}

impl WsConn {
    /// The connection names its application, its token and its user.
    pub open spec fn is_complete(&self) -> bool {
        self.app_id.is_some() && self.token.is_some() && self.user_id.is_some()
    }

    /// `self` is the connection `before` of the same client: what the
    /// client gave and the identifier are the same.
    pub open spec fn same_identity(&self, before: WsConn) -> bool {
        &&& self.token == before.token
        &&& self.app_id == before.app_id
        &&& self.session_id == before.session_id
        &&& self.client_id == before.client_id
        &&& self.user_id == before.user_id
    }

    /// `self` is `before` but for the state.
    pub open spec fn same_client(&self, before: WsConn) -> bool {
        &&& self.same_identity(before)
        &&& self.record_key == before.record_key
    }

    /// `self` is a connection that was just opened on `query` under the
    /// identifier `session_id`.
    pub open spec fn opened_on(&self, query: WsQuery, session_id: Seq<char>) -> bool {
        &&& opt_text(self.token) == opt_text(query.token)
        &&& opt_text(self.app_id) == opt_text(query.app_id)
        &&& opt_text(self.user_id) == opt_text(query.user_id)
        &&& self.session_id@ == session_id
        &&& self.client_id.is_none()
        &&& self.state == ConnState::Connecting
        &&& self.record_key.is_none()
    }

    /// Opens a connection on `query` under the identifier `session_id`. A
    /// request that lacks the application or the token is turned away.
    pub fn open(query: &WsQuery, session_id: String) -> (conn: Option<WsConn>)
        ensures
            conn.is_some() == (query.app_id.is_some() && query.token.is_some()),
            conn.is_some() ==> conn.unwrap().opened_on(*query, session_id@),
    {
        if query.app_id.is_none() || query.token.is_none() {
            return None;
        }
        Some(
            WsConn {
                token: clone_opt_text(&query.token),
                app_id: clone_opt_text(&query.app_id),
                session_id,
                client_id: None,
                user_id: clone_opt_text(&query.user_id),
                state: ConnState::Connecting,
                record_key: None,
            },
        )
    }

    /// The connection is told to close.
    fn close(&mut self)
        ensures
            final(self).same_client(*old(self)),
            final(self).state == closing_from(old(self).state),
    {
        if self.state != ConnState::Stopped {
            self.state = ConnState::Closing;
        }
    }

    /// The connection starts. Where it names its application, its token and
    /// its user, it is registered under its identifier and is to be
    /// authenticated; else it closes, and the registry is left as it is. A
    /// connection that has started before is left as it is, too.
    pub fn started<H>(&mut self, manager: &mut SessionManager<H>, addr: H) -> (request: Option<
        AuthRequest,
    >)
        ensures
            final(self).same_client(*old(self)),
            state_rank(old(self).state) <= state_rank(final(self).state),
            request.is_some() == (old(self).state == ConnState::Connecting && old(
                self,
            ).is_complete()),
            match request {
                Some(r) => {
                    &&& final(self).state == ConnState::Authenticating
                    &&& final(manager)@ == old(manager)@.insert(old(self).session_id@, addr)
                    &&& Some(r.app_id@) == opt_text(old(self).app_id)
                    &&& Some(r.token@) == opt_text(old(self).token)
                    &&& r.session_id@ == old(self).session_id@
                },
                None => {
                    &&& final(self).state == (if old(self).state == ConnState::Connecting {
                        ConnState::Closing
                    } else {
                        old(self).state
                    })
                    &&& final(manager)@ == old(manager)@
                },
            },
    {
        if self.state != ConnState::Connecting {
            return None;
        }
        if self.user_id.is_none() {
            self.close();
            return None;
        }
        match (&self.app_id, &self.token) {
            (Some(app_id), Some(token)) => {
                let request = AuthRequest {
                    app_id: app_id.clone(),
                    token: token.clone(),
                    session_id: self.session_id.clone(),
                };
                manager.add_session(self.session_id.clone(), addr);
                self.state = ConnState::Authenticating;
                Some(request)
            },
            _ => {
                self.close();
                None
            },
        }
    }

    /// The authentication has ended. Where the connection has entered a
    /// session record, it keeps the key of that record, and a connection that
    /// was being authenticated becomes active. Where the authentication
    /// failed, the frame that tells the client is put on its way to it.
    pub fn auth_finished(&mut self, outcome: Result<String, AuthFailure>) -> (frame: Option<
        ServerText,
    >)
        ensures
            final(self).same_identity(*old(self)),
            state_rank(old(self).state) <= state_rank(final(self).state),
            match outcome {
                Ok(key) => {
                    &&& frame.is_none()
                    &&& final(self).record_key == Some(key)
                    &&& final(self).state == (if old(self).state == ConnState::Authenticating {
                        ConnState::Active
                    } else {
                        old(self).state
                    })
                },
                Err(why) => {
                    &&& frame.is_some()
                    &&& frame.unwrap().0@ == failure_frame_of(why)
                    &&& final(self).record_key == old(self).record_key
                    &&& final(self).state == old(self).state
                },
            },
    {
        match outcome {
            Ok(key) => {
                self.record_key = Some(key);
                if self.state == ConnState::Authenticating {
                    self.state = ConnState::Active;
                }
                None
            },
            Err(why) => Some(ServerText(failure_frame(why))),
        }
    }

    /// A text is on its way to the client. One that holds the code 401 in
    /// its field `code` closes the connection and is not sent; every other
    /// text is sent as it is.
    pub fn handle_server_text(&mut self, msg: ServerText) -> (action: Outbound)
        ensures
            final(self).same_client(*old(self)),
            state_rank(old(self).state) <= state_rank(final(self).state),
            match outbound_kind(json_int_at(msg.0@, "code"@)) {
                OutboundKind::Deliver => action matches Outbound::Deliver(text) && text@ == msg.0@
                    && final(self).state == old(self).state,
                OutboundKind::Close => action is Close && final(self).state == closing_from(
                    old(self).state,
                ),
            },
    {
        let text = msg.0;
        let code = json_int_field(text.as_str(), "code");
        match classify_outbound(code) {
            OutboundKind::Deliver => Outbound::Deliver(text),
            OutboundKind::Close => {
                self.close();
                Outbound::Close
            },
        }
    }

    /// A frame has come from the client. A control message with the code 401
    /// closes the connection; one that names another connection has the text
    /// handed to that connection; any other text is sent back. A frame that
    /// is no text stops the connection.
    pub fn handle(&mut self, frame: WsFrame) -> (action: FrameAction)
        ensures
            final(self).same_client(*old(self)),
            state_rank(old(self).state) <= state_rank(final(self).state),
            match frame {
                WsFrame::Text(text, Some(context)) => if context.code == 401 {
                    action is Close && final(self).state == closing_from(old(self).state)
                } else {
                    &&& final(self).state == old(self).state
                    &&& match context.client_id {
                        Some(target) => action matches FrameAction::Private(to, sent) && to@
                            == target@ && sent@ == text@,
                        None => action matches FrameAction::Echo(sent) && sent@ == text@,
                    }
                },
                WsFrame::Text(text, None) => action matches FrameAction::Echo(sent) && sent@
                    == text@ && final(self).state == old(self).state,
                _ => action is Stop && final(self).state == closing_from(old(self).state),
            },
    {
        match frame {
            WsFrame::Text(text, Some(context)) => {
                if context.code == 401 {
                    self.close();
                    FrameAction::Close
                } else {
                    match context.client_id {
                        Some(target) => FrameAction::Private(target, text),
                        None => FrameAction::Echo(text),
                    }
                }
            },
            WsFrame::Text(text, None) => FrameAction::Echo(text),
            _ => {
                self.close();
                FrameAction::Stop
            },
        }
    }

    /// The connection stops: it leaves the registry, and the result is the
    /// key of the record from which its entry is to be removed. That is the
    /// record that the connection has entered; a connection that has entered
    /// none, or has stopped before, has no entry to remove.
    pub fn stopping<H>(&mut self, manager: &mut SessionManager<H>) -> (key: Option<String>)
        ensures
            final(self).same_identity(*old(self)),
            state_rank(old(self).state) <= state_rank(final(self).state),
            final(self).state == ConnState::Stopped,
            final(self).record_key.is_none(),
            final(manager)@ == old(manager)@.remove(old(self).session_id@),
            key == old(self).record_key,
    {
        manager.remove_session(self.session_id.as_str());
        self.state = ConnState::Stopped;
        self.record_key.take()
    }
}

/// Opens a connection on `query` under a fresh identifier. A request that
/// lacks the application or the token is turned away.
pub fn ws_handler(query: &WsQuery) -> (conn: Option<WsConn>)
    ensures
        conn.is_some() == (query.app_id.is_some() && query.token.is_some()),
        conn.is_some() ==> conn.unwrap().opened_on(*query, conn.unwrap().session_id@),
        conn.is_some() ==> conn.unwrap().session_id@.len() == 36,
{
    if query.app_id.is_none() || query.token.is_none() {
        return None;
    }
    WsConn::open(query, random_id())
}

} // verus!
