//! Authorizing a remote, and finding the remotes that exist.
//!
//! Authorization runs rclone's interactive authorizer as a subprocess. The
//! caller spawns it, listens to it and to the user, and reports each event to
//! an `AuthSession`, which answers with what to do.

use vstd::prelude::*;
use crate::json::{json_string, quote};
use crate::text::{
    decimal, extend_str, find, first_index_of, from_chars, joined, opt_text, push_decimal, slice,
    str_eq, texts, to_chars, trim, trimmed,
};
use crate::order::{
    is_stable_order, lex_le, name_keys, permuted, sort_names, sorted_positions,
};
use crate::utils::{extract_json, json_span};

verus! {

/// The name under which the authorized remote is registered. A remote of
/// that name that exists already is overwritten.
pub const DEFAULT_RCLONE_CONFIG_NAME: &'static str = "gdrive_unofficial_neuro_kar";

/// The backend type of the remote.
pub const REMOTE_TYPE: &'static str = "drive";

/// What the authorizer writes before the link that the user has to open.
pub const AUTH_URL_MARKER: &'static str = "Please go to the following link: ";

/// What the flow ends with when the user cancels.
pub const CANCELLED_BY_USER: &'static str = "Cancelled by user";

/// What the flow ends with when the authorizer's output holds no token.
pub const NO_TOKEN: &'static str = "Failed to extract token from auth output";

/// Where an authorization stands.
#[derive(Debug, Clone, Copy, PartialEq, Eq, Structural)]
pub enum AuthPhase {
    /// Not started.
    Idle,
    /// The authorizer runs.
    Running,
    /// The authorizer ended well and its output held a token.
    Succeeded,
    /// The authorizer failed, or its output held no token.
    Failed,
    /// The user cancelled.
    Cancelled,
}

/// Something that happened while the authorizer ran.
#[derive(Debug, PartialEq, Eq)]
pub enum AuthEvent {
    /// The authorizer wrote this to its standard output.
    Stdout(String),
    /// The authorizer wrote this to its standard error.
    Stderr(String),
    /// The pipe to the authorizer failed: the failure's message.
    ProcessError(String),
    /// The authorizer ended, with this exit code if it has one.
    Terminated(Option<i32>),
    /// The stream of events ended without a word of the authorizer's end.
    Closed,
    /// The user asked to cancel.
    CancelRequested,
}

/// What the caller has to do after an event.
#[derive(Debug, PartialEq, Eq)]
pub enum AuthAction {
    /// Nothing; go on listening.
    Continue,
    /// Show this link to the user, and go on listening.
    EmitUrl(String),
    /// Kill the authorizer. The flow has ended as cancelled, with this
    /// explanation; no credential is registered.
    Kill(String),
    /// Register the credential with the backend: a remote of this name with
    /// these parameters. The flow has ended well.
    Register { name: String, parameters: String },
    /// The flow has ended in failure, with this message.
    Fail(String),
}

/// One authorization attempt.
pub struct AuthSession {
    phase: AuthPhase,
    output: Vec<char>,
    url_sent: bool,
}

/// What an `AuthSession` stands for.
pub struct AuthModel {
    /// Where the flow stands.
    pub phase: AuthPhase,
    /// Everything the authorizer has written to its standard output so far.
    pub output: Seq<char>,
    /// Whether the link has been shown to the user.
    pub url_sent: bool,
}

impl View for AuthSession {
    type V = AuthModel;

    closed spec fn view(&self) -> AuthModel {
        AuthModel { phase: self.phase, output: self.output@, url_sent: self.url_sent }
    }
}

/// The link in a piece of the authorizer's standard error: what follows the
/// first marker, without the white space around it.
pub open spec fn auth_url(chunk: Seq<char>) -> Option<Seq<char>> {
    match first_index_of(chunk, AUTH_URL_MARKER@) {
        Some(at) => Some(trimmed(chunk.skip(at + AUTH_URL_MARKER@.len()))),
        None => None,
    }
}

/// The parameters that register a token: a JSON object whose one member,
/// `token`, holds the token as a string.
pub open spec fn token_parameters(token: Seq<char>) -> Seq<char> {
    "{\"token\":"@ + json_string(token) + "}"@
}

/// The message for an authorizer that ended with the exit code `code`.
pub open spec fn exit_code_message(code: i32) -> Seq<char> {
    "Rclone authorize failed with code Some("@ + decimal(code as int) + ")"@
}

/// What an `AuthEvent` stands for.
pub enum EventModel {
    Stdout(Seq<char>),
    Stderr(Seq<char>),
    ProcessError(Seq<char>),
    Terminated(Option<i32>),
    Closed,
    CancelRequested,
}

impl View for AuthEvent {
    type V = EventModel;

    open spec fn view(&self) -> EventModel {
        match *self {
            AuthEvent::Stdout(text) => EventModel::Stdout(text@),
            AuthEvent::Stderr(text) => EventModel::Stderr(text@),
            AuthEvent::ProcessError(message) => EventModel::ProcessError(message@),
            AuthEvent::Terminated(code) => EventModel::Terminated(code),
            AuthEvent::Closed => EventModel::Closed,
            AuthEvent::CancelRequested => EventModel::CancelRequested,
        }
    }
}

/// What an `AuthAction` stands for.
pub enum ActionModel {
    Continue,
    EmitUrl(Seq<char>),
    Kill(Seq<char>),
    Register { name: Seq<char>, parameters: Seq<char> },
    Fail(Seq<char>),
}

impl View for AuthAction {
    type V = ActionModel;

    open spec fn view(&self) -> ActionModel {
        match *self {
            AuthAction::Continue => ActionModel::Continue,
            AuthAction::EmitUrl(url) => ActionModel::EmitUrl(url@),
            AuthAction::Kill(why) => ActionModel::Kill(why@),
            AuthAction::Register { name, parameters } => ActionModel::Register {
                name: name@,
                parameters: parameters@,
            },
            AuthAction::Fail(message) => ActionModel::Fail(message@),
        }
    }
}

/// How a running flow ends on the output it has kept: well if the output
/// holds a JSON object, which is the token to register; in failure if not.
pub open spec fn auth_conclusion(s: AuthModel) -> (AuthModel, ActionModel) {
    match json_span(s.output) {
        Some(token) => (
            AuthModel { phase: AuthPhase::Succeeded, ..s },
            ActionModel::Register {
                name: DEFAULT_RCLONE_CONFIG_NAME@,
                parameters: token_parameters(token),
            },
        ),
        None => (AuthModel { phase: AuthPhase::Failed, ..s }, ActionModel::Fail(NO_TOKEN@)),
    }
}

/// One step of the flow: the state after the event, and what the caller has
/// to do.
///
/// While the authorizer runs: standard output is kept; the first piece of
/// standard error that holds the marker gives the link; a request to cancel
/// ends the flow as cancelled and has the authorizer killed; a failing pipe
/// or a non-zero exit code ends it in failure; an exit without a code or
/// with code zero, or the end of the events, ends it on the output kept so
/// far. Before the start and after the end every event is passed over.
pub open spec fn auth_step(s: AuthModel, event: EventModel) -> (AuthModel, ActionModel) {
    if s.phase != AuthPhase::Running {
        (s, ActionModel::Continue)
    } else {
        match event {
            EventModel::Stdout(text) => (
                AuthModel { output: s.output + text, ..s },
                ActionModel::Continue,
            ),
            EventModel::Stderr(text) => match auth_url(text) {
                Some(url) => if s.url_sent {
                    (s, ActionModel::Continue)
                } else {
                    (AuthModel { url_sent: true, ..s }, ActionModel::EmitUrl(url))
                },
                None => (s, ActionModel::Continue),
            },
            EventModel::ProcessError(message) => (
                AuthModel { phase: AuthPhase::Failed, ..s },
                ActionModel::Fail("Process error: "@ + message),
            ),
            EventModel::CancelRequested => (
                AuthModel { phase: AuthPhase::Cancelled, ..s },
                ActionModel::Kill(CANCELLED_BY_USER@),
            ),
            EventModel::Terminated(Some(code)) => if code != 0 {
                (
                    AuthModel { phase: AuthPhase::Failed, ..s },
                    ActionModel::Fail(exit_code_message(code)),
                )
            } else {
                auth_conclusion(s)
            },
            EventModel::Terminated(None) => auth_conclusion(s),
            EventModel::Closed => auth_conclusion(s),
        }
    }
}

/// The state of the flow after the events of `events`, taken in order.
pub open spec fn auth_state_after(s: AuthModel, events: Seq<EventModel>) -> AuthModel
    decreases events.len(),
{
    if events.len() == 0 {
        s
    } else {
        auth_step(auth_state_after(s, events.drop_last()), events.last()).0
    }
}

/// What the caller is told to do at each of the events of `events`.
pub open spec fn auth_actions(s: AuthModel, events: Seq<EventModel>) -> Seq<ActionModel> {
    Seq::new(
        events.len(),
        |i: int| auth_step(auth_state_after(s, events.take(i)), events[i]).1,
    )
}

/// The flow is over: it has ended well, in failure, or as cancelled.
pub open spec fn is_over(phase: AuthPhase) -> bool {
    phase == AuthPhase::Succeeded || phase == AuthPhase::Failed || phase == AuthPhase::Cancelled
}

/// Once the flow is over nothing changes it any more, whatever happens.
pub proof fn lemma_over_stays_over(s: AuthModel, events: Seq<EventModel>)
    requires
        is_over(s.phase),
    ensures
        auth_state_after(s, events) == s,
        forall|i: int| 0 <= i < events.len() ==> auth_actions(s, events)[i] == ActionModel::Continue,
    decreases events.len(),
{
    if events.len() > 0 {
        lemma_over_stays_over(s, events.drop_last());
        assert forall|i: int| 0 <= i < events.len() implies auth_actions(s, events)[i]
            == ActionModel::Continue by {
            lemma_over_stays_over(s, events.take(i));
        }
    }
}

/// The state after some events and then some more is the state that the
/// later events lead to from where the earlier ones left off.
pub proof fn lemma_auth_state_after_split(s: AuthModel, events: Seq<EventModel>, at: int)
    requires
        0 <= at <= events.len(),
    ensures
        auth_state_after(s, events) == auth_state_after(
            auth_state_after(s, events.take(at)),
            events.skip(at),
        ),
    decreases events.len() - at,
{
    if at == events.len() {
        assert(events.take(at) =~= events);
        assert(events.skip(at) =~= Seq::<EventModel>::empty());
    } else {
        let shorter = events.drop_last();
        lemma_auth_state_after_split(s, shorter, at);
        assert(shorter.take(at) =~= events.take(at));
        assert(shorter.skip(at) =~= events.skip(at).drop_last());
        assert(events.skip(at).last() == events.last());
    }
}

/// After a request to cancel a running flow, no credential is registered,
/// whatever else happens: the request has the authorizer killed, and every
/// later event is passed over.
pub proof fn lemma_cancel_registers_nothing(
    s: AuthModel,
    before: Seq<EventModel>,
    after: Seq<EventModel>,
)
    requires
        auth_state_after(s, before).phase == AuthPhase::Running,
    ensures
        ({
            let events = before.push(EventModel::CancelRequested) + after;
            &&& auth_actions(s, events)[before.len() as int] == ActionModel::Kill(
                CANCELLED_BY_USER@,
            )
            &&& auth_state_after(s, events).phase == AuthPhase::Cancelled
            &&& forall|i: int|
                before.len() < i < events.len() ==> auth_actions(s, events)[i]
                    == ActionModel::Continue
        }),
{
    let cancel = EventModel::CancelRequested;
    let events = before.push(cancel) + after;
    let n = before.len() as int;
    let running = auth_state_after(s, before);
    let cancelled = AuthModel { phase: AuthPhase::Cancelled, ..running };
    assert(events.take(n) =~= before);
    assert(events[n] == cancel);
    assert(events.take(n + 1) =~= before.push(cancel));
    assert(before.push(cancel).drop_last() =~= before);
    assert(auth_state_after(s, events.take(n + 1)) == cancelled);
    lemma_auth_state_after_split(s, events, n + 1);
    lemma_over_stays_over(cancelled, events.skip(n + 1));
    assert forall|i: int| n < i < events.len() implies auth_actions(s, events)[i]
        == ActionModel::Continue by {
        lemma_auth_state_after_split(s, events.take(i), n + 1);
        assert(events.take(i).take(n + 1) =~= events.take(n + 1));
        lemma_over_stays_over(cancelled, events.take(i).skip(n + 1));
    }
}

/// Whether the link has been shown never goes back to not shown.
proof fn lemma_url_sent_stays(s: AuthModel, events: Seq<EventModel>)
    requires
        s.url_sent,
    ensures
        auth_state_after(s, events).url_sent,
    decreases events.len(),
{
    if events.len() > 0 {
        lemma_url_sent_stays(s, events.drop_last());
    }
}

/// The link is shown to the user at most once in a flow.
pub proof fn lemma_link_emitted_at_most_once(
    s: AuthModel,
    events: Seq<EventModel>,
    i: int,
    j: int,
)
    requires
        0 <= i <= j < events.len(),
        auth_actions(s, events)[i] is EmitUrl,
        auth_actions(s, events)[j] is EmitUrl,
    ensures
        i == j,
{
    if i < j {
        let at_i = auth_state_after(s, events.take(i));
        let shown = auth_step(at_i, events[i]).0;
        assert(shown.url_sent);
        assert(events.take(j).take(i + 1) =~= events.take(i + 1));
        assert(events.take(i + 1).drop_last() =~= events.take(i));
        assert(auth_state_after(s, events.take(i + 1)) == shown);
        lemma_auth_state_after_split(s, events.take(j), i + 1);
        lemma_url_sent_stays(shown, events.take(j).skip(i + 1));
        assert(auth_state_after(s, events.take(j)).url_sent);
    }
}

/// The link in a piece of the authorizer's standard error, if it holds one.
pub fn extract_auth_url(chunk: &str) -> (r: Option<String>)
    ensures
        match r {
            Some(url) => auth_url(chunk@) == Some(url@),
            None => auth_url(chunk@) is None,
        },
{
    let chars = to_chars(chunk);
    let marker = to_chars(AUTH_URL_MARKER);
    let n: usize = chars.len();
    match find(&chars, &marker) {
        Some(at) => {
            proof {
                crate::text::lemma_first_index_of_is_first(chars@, marker@);
            }
            let rest = slice(&chars, at + marker.len(), n);
            assert(rest@ =~= chars@.skip(at + marker@.len()));
            let url = trim(&rest);
            Some(from_chars(&url))
        },
        None => None,
    }
}

/// The arguments that the authorizer is started with. It must not open a
/// browser itself: the link goes to the user through `AuthAction::EmitUrl`.
pub fn authorize_args() -> (args: Vec<String>)
    ensures
        args@.len() == 3,
        args@[0]@ == "authorize"@,
        args@[1]@ == REMOTE_TYPE@,
        args@[2]@ == "--auth-no-open-browser"@,
{
    let mut args: Vec<String> = Vec::new();
    args.push("authorize".to_owned());
    args.push(REMOTE_TYPE.to_owned());
    args.push("--auth-no-open-browser".to_owned());
    args
}

/// The message for a registration that the backend refused with `reason`.
pub fn registration_failed(reason: &str) -> (m: String)
    ensures
        m@ == "Failed to create config context: "@ + reason@,
{
    joined("Failed to create config context: ", reason)
}

impl AuthSession {
    /// A session that has not started.
    pub fn new() -> (s: Self)
        ensures
            s@ == (AuthModel { phase: AuthPhase::Idle, output: Seq::empty(), url_sent: false }),
    {
        AuthSession { phase: AuthPhase::Idle, output: Vec::new(), url_sent: false }
    }

    /// Where the flow stands.
    pub fn phase(&self) -> (p: AuthPhase)
        ensures
            p == self@.phase,
    {
        self.phase
    }

    /// Whether the flow has ended.
    pub fn is_over(&self) -> (r: bool)
        ensures
            r == is_over(self@.phase),
    {
        match self.phase {
            AuthPhase::Idle => false,
            AuthPhase::Running => false,
            _ => true,
        }
    }

    /// Marks the authorizer as spawned. Only a session that has not started
    /// starts; on any other the call changes nothing and returns `false`.
    pub fn start(&mut self) -> (started: bool)
        ensures
            started == (old(self)@.phase == AuthPhase::Idle),
            started ==> final(self)@ == (AuthModel { phase: AuthPhase::Running, ..old(self)@ }),
            !started ==> final(self)@ == old(self)@,
    {
        match self.phase {
            AuthPhase::Idle => {
                self.phase = AuthPhase::Running;
                true
            },
            _ => false,
        }
    }

    /// Takes the authorizer's output for complete and ends the flow on it.
    fn conclude(&mut self) -> (action: AuthAction)
        requires
            old(self)@.phase == AuthPhase::Running,
        ensures
            (final(self)@, action@) == auth_conclusion(old(self)@),
    {
        let output = from_chars(&self.output);
        match extract_json(output.as_str()) {
            Some(token) => {
                let mut parameters: Vec<char> = Vec::new();
                extend_str(&mut parameters, "{\"token\":");
                let quoted = quote(token.as_str());
                extend_str(&mut parameters, quoted.as_str());
                extend_str(&mut parameters, "}");
                assert(parameters@ =~= token_parameters(token@));
                self.phase = AuthPhase::Succeeded;
                AuthAction::Register {
                    name: DEFAULT_RCLONE_CONFIG_NAME.to_owned(),
                    parameters: from_chars(&parameters),
                }
            },
            None => {
                self.phase = AuthPhase::Failed;
                AuthAction::Fail(NO_TOKEN.to_owned())
            },
        }
    }

    /// Takes in one event and says what to do: one `auth_step`.
    pub fn on_event(&mut self, event: AuthEvent) -> (action: AuthAction)
        ensures
            (final(self)@, action@) == auth_step(old(self)@, event@),
    {
        match self.phase {
            AuthPhase::Running => {},
            _ => {
                return AuthAction::Continue;
            },
        }
        match event {
            AuthEvent::Stdout(text) => {
                extend_str(&mut self.output, text.as_str());
                AuthAction::Continue
            },
            AuthEvent::Stderr(text) => {
                if self.url_sent {
                    return AuthAction::Continue;
                }
                match extract_auth_url(text.as_str()) {
                    Some(url) => {
                        self.url_sent = true;
                        AuthAction::EmitUrl(url)
                    },
                    None => AuthAction::Continue,
                }
            },
            AuthEvent::ProcessError(e) => {
                self.phase = AuthPhase::Failed;
                AuthAction::Fail(joined("Process error: ", e.as_str()))
            },
            AuthEvent::CancelRequested => {
                self.phase = AuthPhase::Cancelled;
                AuthAction::Kill(CANCELLED_BY_USER.to_owned())
            },
            AuthEvent::Terminated(Some(code)) => {
                if code != 0 {
                    let mut m: Vec<char> = Vec::new();
                    extend_str(&mut m, "Rclone authorize failed with code Some(");
                    push_decimal(&mut m, code as i64);
                    extend_str(&mut m, ")");
                    assert(m@ =~= exit_code_message(code));
                    self.phase = AuthPhase::Failed;
                    AuthAction::Fail(from_chars(&m))
                } else {
                    self.conclude()
                }
            },
            AuthEvent::Terminated(None) => self.conclude(),
            AuthEvent::Closed => self.conclude(),
        }
    }
}

/// The one place for the handle that cancels the authorization under way.
/// A new authorization puts its handle there in place of any older one; a
/// request to cancel takes the handle out, so that it is used once.
pub struct GdriveAuthState<T> {
    auth_cancel_tx: Option<T>,
}

impl<T> GdriveAuthState<T> {
    /// The handle in place, if there is one.
    pub closed spec fn handle(self) -> Option<T> {
        self.auth_cancel_tx
    }

    /// A place without a handle.
    pub fn new() -> (state: Self)
        ensures
            state.handle() is None,
    {
        GdriveAuthState { auth_cancel_tx: None }
    }

    /// Puts the handle of a new authorization in place. Returns the handle
    /// that it replaces, which is of no use any more.
    pub fn register(&mut self, handle: T) -> (replaced: Option<T>)
        ensures
            final(self).handle() == Some(handle),
            replaced == old(self).handle(),
    {
        let replaced = self.auth_cancel_tx.take();
        self.auth_cancel_tx = Some(handle);
        replaced
    }

    /// Empties the place once the authorization is over.
    pub fn clear(&mut self)
        ensures
            final(self).handle() is None,
    {
        self.auth_cancel_tx = None;
    }
}

impl<T> Default for GdriveAuthState<T> {
    /// A place without a handle.
    fn default() -> (state: Self)
        ensures
            state.handle() is None,
    {
        GdriveAuthState { auth_cancel_tx: None }
    }
}

/// Takes the handle out for the caller to signal on. Where no authorization
/// is under way, or its handle has been taken already, there is nothing to
/// signal and nothing happens.
pub fn cancel_gdrive_auth<T>(state: &mut GdriveAuthState<T>) -> (handle: Option<T>)
    ensures
        handle == old(state).handle(),
        final(state).handle() is None,
{
    state.auth_cancel_tx.take()
}

/// One remote of the backend's configuration: its name, and its backend
/// type where it states one.
pub struct RemoteEntry {
    pub name: String,
    pub kind: Option<String>,
}

/// The remote is a Google Drive remote.
pub open spec fn is_drive(entry: RemoteEntry) -> bool {
    opt_text(entry.kind) == Some(REMOTE_TYPE@)
}

/// The names of the Google Drive remotes among `entries`, in their order.
pub open spec fn drive_names(entries: Seq<RemoteEntry>) -> Seq<Seq<char>>
    decreases entries.len(),
{
    if entries.len() == 0 {
        Seq::empty()
    } else {
        let before = drive_names(entries.drop_last());
        if is_drive(entries.last()) {
            before.push(entries.last().name@)
        } else {
            before
        }
    }
}

/// The names of the Google Drive remotes among `entries`, sorted in
/// dictionary order.
pub fn drive_remotes(entries: &Vec<RemoteEntry>) -> (remotes: Vec<String>)
    ensures
        texts(remotes@) == permuted(
            drive_names(entries@),
            sorted_positions(name_keys(drive_names(entries@))),
        ),
        is_stable_order(
            name_keys(drive_names(entries@)),
            sorted_positions(name_keys(drive_names(entries@))),
        ),
        forall|i: int, j: int|
            0 <= i < j < remotes@.len() ==> lex_le(
                #[trigger] remotes@[i]@,
                #[trigger] remotes@[j]@,
            ),
{
    let mut names: Vec<String> = Vec::new();
    let mut i: usize = 0;
    assert(entries@.take(0) =~= Seq::<RemoteEntry>::empty());
    while i < entries.len()
        invariant
            i <= entries@.len(),
            texts(names@) == drive_names(entries@.take(i as int)),
        decreases entries.len() - i,
    {
        let ghost before = texts(names@);
        let entry = &entries[i];
        let drive = match &entry.kind {
            Some(kind) => str_eq(kind.as_str(), REMOTE_TYPE),
            None => false,
        };
        proof {
            assert(entries@.take(i + 1).drop_last() =~= entries@.take(i as int));
            assert(entries@.take(i + 1).last() == entries@[i as int]);
        }
        if drive {
            names.push(entry.name.clone());
            assert(texts(names@) =~= before.push(entry.name@));
        }
        i += 1;
    }
    assert(entries@.take(entries@.len() as int) =~= entries@);
    sort_names(&names)
}

} // verus!
