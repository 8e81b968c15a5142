//! One connection: its life from accept to exit, and what the handler does
//! with the commands that arrive on it.
//!
//! Nothing here reads or writes a socket, waits or locks.  The state machine
//! takes what happened and says what is to be done; whoever runs the
//! connection does it and reports back.

use crate::client::{Client, ClientView};
use crate::client_command::{ClientCommand, ClientKind};
use crate::client_manager::{ClientManager, Registry};
use crate::command::Message;
use crate::error::{Error, ErrorView};
use crate::field::FieldValue;
use crate::server_command::{ServerCommand, ServerKind};
use vstd::prelude::*;
use vstd::string::*;

verus! {

/// The number that the preamble carries.
pub const PREAMBLE: u32 = 34;

/// The greatest player count that a message can carry.
pub const MAX_PLAYER_COUNT: usize = 255;

// ---------------------------------------------------------------------------
// Replies
// ---------------------------------------------------------------------------

/// The command that opens every connection.
pub open spec fn preamble() -> Message<ServerKind> {
    Message { kind: ServerKind::Decryptor, fields: seq![FieldValue::U32(PREAMBLE)] }
}

/// The command that turns a client away from a full server.
pub open spec fn server_full() -> Message<ServerKind> {
    Message {
        kind: ServerKind::BanReason,
        fields: seq![FieldValue::Text("This server is full."@)],
    }
}

/// The command that answers a keep-alive.
pub open spec fn check() -> Message<ServerKind> {
    Message { kind: ServerKind::KeepAlive, fields: Seq::empty() }
}

/// The command that tells a client its slot and the server's software.
pub open spec fn server_version(id: u8, software: Seq<char>, version: Seq<char>) -> Message<
    ServerKind,
> {
    Message {
        kind: ServerKind::ServerVersion,
        fields: seq![FieldValue::U8(id), FieldValue::Text(software), FieldValue::Text(version)],
    }
}

/// The command that tells how many players there are, and how many there
/// may be.  A count beyond 255 is sent as 255.
pub open spec fn player_count(registry: Registry) -> Message<ServerKind> {
    let count = if registry.player_count() > MAX_PLAYER_COUNT {
        MAX_PLAYER_COUNT as u8
    } else {
        registry.player_count() as u8
    };
    Message {
        kind: ServerKind::PlayerCount,
        fields: seq![FieldValue::U8(count), FieldValue::U8(registry.limit)],
    }
}

/// The command that opens every connection.
pub fn preamble_command() -> (r: ServerCommand)
    ensures
        r@ == preamble(),
{
    let r = ServerCommand::Decryptor(PREAMBLE);
    assert(r@.fields =~= preamble().fields);
    r
}

/// The command that turns a client away from a full server.
pub fn server_full_command() -> (r: ServerCommand)
    ensures
        r@ == server_full(),
{
    let r = ServerCommand::BanReason(String::from_str("This server is full."));
    assert(r@.fields =~= server_full().fields);
    r
}

/// The command that tells how many players there are, and how many there
/// may be.
pub fn player_count_command(manager: &ClientManager) -> (r: ServerCommand)
    ensures
        r@ == player_count(manager@),
{
    let players = manager.player_count();
    let count: u8 = if players > MAX_PLAYER_COUNT {
        255
    } else {
        players as u8
    };
    let r = ServerCommand::PlayerCount(count, manager.player_limit());
    assert(r@.fields =~= player_count(manager@).fields);
    r
}

// ---------------------------------------------------------------------------
// The handler
// ---------------------------------------------------------------------------

/// What a handler asks for, to be done in the order given.
#[derive(Debug)]
pub enum Effect {
    /// Record that the identity was seen with the hardware id.
    AddHdid { hdid: String, ipid: u32 },
    /// Send the command to the client.
    Send(ServerCommand),
    /// Send the player count as it is by then.
    SendPlayerCount,
    /// Tell the timeout supervisor that the client is alive.
    ResetTimeout,
    /// Hand the command to the application: the pipeline has no handler of
    /// its own for it.
    Extension(ClientCommand),
}

/// An [`Effect`] with its texts as sequences of characters.
pub ghost enum EffectView {
    AddHdid { hdid: Seq<char>, ipid: u32 },
    Send(Message<ServerKind>),
    SendPlayerCount,
    ResetTimeout,
    Extension(Message<ClientKind>),
}

impl View for Effect {
    type V = EffectView;

    open spec fn view(&self) -> EffectView {
        match self {
            Effect::AddHdid { hdid, ipid } => EffectView::AddHdid { hdid: hdid@, ipid: *ipid },
            Effect::Send(command) => EffectView::Send(command@),
            Effect::SendPlayerCount => EffectView::SendPlayerCount,
            Effect::ResetTimeout => EffectView::ResetTimeout,
            Effect::Extension(command) => EffectView::Extension(command@),
        }
    }
}

/// The views of a list of effects.
pub open spec fn effect_views(effects: Seq<Effect>) -> Seq<EffectView> {
    Seq::new(effects.len(), |i: int| effects[i]@)
}

/// What a handshake asks for: the hardware id is recorded, then the client
/// is told its slot and the server's software, then the player count.
pub open spec fn handshake_effects(
    client: ClientView,
    software: Seq<char>,
    version: Seq<char>,
) -> Seq<EffectView> {
    seq![
        EffectView::AddHdid { hdid: client.hdid, ipid: client.ipid },
        EffectView::Send(server_version(client.id, software, version)),
        EffectView::SendPlayerCount,
    ]
}

/// What a keep-alive asks for: the supervisor is told, then the client is
/// answered.
pub open spec fn keepalive_effects() -> Seq<EffectView> {
    seq![EffectView::ResetTimeout, EffectView::Send(check())]
}

/// How the signal to the timeout supervisor went.  The channel to the
/// supervisor holds one signal.
#[derive(Clone, Copy, Debug, PartialEq, Eq, Structural)]
pub enum SignalOutcome {
    /// The signal is on its way.
    Sent,
    /// A signal is waiting already: the supervisor will start its timer anew
    /// in any case.
    Full,
    /// The supervisor is gone.
    Closed,
}

/// What follows from how the signal went: a signal that found the channel
/// full is dropped, and that is no error; a supervisor that is gone is one.
pub open spec fn signal_result(outcome: SignalOutcome) -> Result<(), ErrorView> {
    match outcome {
        SignalOutcome::Sent => Ok(()),
        SignalOutcome::Full => Ok(()),
        SignalOutcome::Closed => Err(ErrorView::Handler("send failed because receiver is gone"@)),
    }
}

/// What follows from how the signal to the supervisor went.
pub fn after_signal(outcome: SignalOutcome) -> (r: Result<(), Error>)
    ensures
        match r {
            Ok(_) => signal_result(outcome) is Ok,
            Err(e) => signal_result(outcome) == Err::<(), ErrorView>(e@),
        },
{
    match outcome {
        SignalOutcome::Sent => Ok(()),
        SignalOutcome::Full => Ok(()),
        SignalOutcome::Closed => Err(
            Error::Handler(String::from_str("send failed because receiver is gone")),
        ),
    }
}

/// The state of one connection's handler: the record of its client, and how
/// the server names itself.
pub struct AO2MessageHandler {
    client: Client,
    software: String,
    version: String,
}

impl AO2MessageHandler {
    /// The handler of a client that was just admitted.
    pub fn new(client: Client, software: String, version: String) -> (r: Self)
        ensures
            r.client_view() == client@,
            r.software_text() == software@,
            r.version_text() == version@,
    {
        AO2MessageHandler { client, software, version }
    }

    /// The record of the client.
    pub closed spec fn client_view(&self) -> ClientView {
        self.client@
    }

    /// The name of the server's software.
    pub closed spec fn software_text(&self) -> Seq<char> {
        self.software@
    }

    /// The version of the server's software.
    pub closed spec fn version_text(&self) -> Seq<char> {
        self.version@
    }

    /// The record of the client.
    pub fn client(&self) -> (r: &Client)
        ensures
            r@ == self.client_view(),
    {
        &self.client
    }

    /// Handles `HI`: the record takes the hardware id and replaces the one
    /// in the registry; the rest is asked for.
    pub fn handle_handshake(&mut self, manager: &mut ClientManager, hdid: String) -> (r: Vec<
        Effect,
    >)
        ensures
            final(self).client_view() == (ClientView { hdid: hdid@, ..old(self).client_view() }),
            final(self).software_text() == old(self).software_text(),
            final(self).version_text() == old(self).version_text(),
            old(manager)@.wf() ==> final(manager)@.wf(),
            final(manager)@ == old(manager)@.updated(final(self).client_view()),
            effect_views(r@) == handshake_effects(
                final(self).client_view(),
                final(self).software_text(),
                final(self).version_text(),
            ),
    {
        self.client.set_hdid(hdid.clone());
        manager.update_client(self.client.clone());
        let version = ServerCommand::ServerVersion(
            self.client.id(),
            self.software.clone(),
            self.version.clone(),
        );
        assert(version@.fields =~= server_version(
            self.client@.id,
            self.software@,
            self.version@,
        ).fields);
        let r = vec![
            Effect::AddHdid { hdid, ipid: self.client.ipid() },
            Effect::Send(version),
            Effect::SendPlayerCount,
        ];
        assert(effect_views(r@) =~= handshake_effects(self.client@, self.software@, self.version@));
        r
    }

    /// Handles `CH`, whatever number it carries.
    pub fn handle_keepalive(&mut self, _n: i32) -> (r: Vec<Effect>)
        ensures
            final(self).client_view() == old(self).client_view(),
            final(self).software_text() == old(self).software_text(),
            final(self).version_text() == old(self).version_text(),
            effect_views(r@) == keepalive_effects(),
    {
        let reply = ServerCommand::KeepAlive;
        assert(reply@.fields =~= check().fields);
        let r = vec![Effect::ResetTimeout, Effect::Send(reply)];
        assert(effect_views(r@) =~= keepalive_effects());
        r
    }

    /// Dispatches a command to its handler.  A command without a handler
    /// in the pipeline is handed to the application, unchanged.
    pub fn handle(&mut self, command: ClientCommand, manager: &mut ClientManager) -> (r: Vec<
        Effect,
    >)
        ensures
            old(manager)@.wf() ==> final(manager)@.wf(),
            final(self).software_text() == old(self).software_text(),
            final(self).version_text() == old(self).version_text(),
            match command@.kind {
                ClientKind::Handshake => {
                    &&& final(self).client_view() == (ClientView {
                        hdid: command@.fields[0]->Text_0,
                        ..old(self).client_view()
                    })
                    &&& final(manager)@ == old(manager)@.updated(final(self).client_view())
                    &&& effect_views(r@) == handshake_effects(
                        final(self).client_view(),
                        final(self).software_text(),
                        final(self).version_text(),
                    )
                },
                ClientKind::KeepAlive => {
                    &&& final(self).client_view() == old(self).client_view()
                    &&& final(manager)@ == old(manager)@
                    &&& effect_views(r@) == keepalive_effects()
                },
                _ => {
                    &&& final(self).client_view() == old(self).client_view()
                    &&& final(manager)@ == old(manager)@
                    &&& effect_views(r@) == seq![EffectView::Extension(command@)]
                },
            },
    {
        match command {
            ClientCommand::Handshake(hdid) => self.handle_handshake(manager, hdid),
            ClientCommand::KeepAlive(n) => self.handle_keepalive(n),
            other => {
                let ghost given = other@;
                let r = vec![Effect::Extension(other)];
                assert(effect_views(r@) =~= seq![EffectView::Extension(given)]);
                r
            },
        }
    }
}

// ---------------------------------------------------------------------------
// The life of a connection
// ---------------------------------------------------------------------------

/// Where a connection stands.
#[derive(Clone, Copy, Debug, PartialEq, Eq, Structural)]
pub enum SessionState {
    /// Accepted; nothing was sent yet.
    WaitPreamble,
    /// The preamble was sent; the registry is asked for a slot.
    Admitting,
    /// Admitted; commands are read and dispatched.
    Active,
    /// Over.
    Closed,
}

/// What happened on a connection.
#[derive(Debug)]
pub enum SessionEvent {
    /// The listener accepted the connection.
    Accepted,
    /// The registry admitted the client.
    Admitted,
    /// The registry did not admit the client.
    AdmissionFailed(Error),
    /// A command was decoded.
    Command(ClientCommand),
    /// What arrived could not be decoded.
    DecodeFailed(Error),
    /// The stream ended.
    StreamEnded,
    /// The timeout supervisor gave its signal.
    TimedOut,
    /// What a handler asked for could not be done.
    HandlerFailed(Error),
}

/// A [`SessionEvent`] with its texts as sequences of characters.
pub ghost enum SessionEventView {
    Accepted,
    Admitted,
    AdmissionFailed(ErrorView),
    Command(Message<ClientKind>),
    DecodeFailed(ErrorView),
    StreamEnded,
    TimedOut,
    HandlerFailed(ErrorView),
}

impl View for SessionEvent {
    type V = SessionEventView;

    open spec fn view(&self) -> SessionEventView {
        match self {
            SessionEvent::Accepted => SessionEventView::Accepted,
            SessionEvent::Admitted => SessionEventView::Admitted,
            SessionEvent::AdmissionFailed(e) => SessionEventView::AdmissionFailed(e@),
            SessionEvent::Command(command) => SessionEventView::Command(command@),
            SessionEvent::DecodeFailed(e) => SessionEventView::DecodeFailed(e@),
            SessionEvent::StreamEnded => SessionEventView::StreamEnded,
            SessionEvent::TimedOut => SessionEventView::TimedOut,
            SessionEvent::HandlerFailed(e) => SessionEventView::HandlerFailed(e@),
        }
    }
}

/// What is to be done on a connection.
#[derive(Debug)]
pub enum SessionAction {
    /// Send the command to the client.
    Send(ServerCommand),
    /// Ask the registry for a slot.
    Admit,
    /// Open the keep-alive channel and start the timeout supervisor.
    StartSupervisor,
    /// Hand the command to the handler.
    Dispatch(ClientCommand),
    /// Give the slot back to the registry.
    Release,
    /// End the task with this error.
    Exit(Error),
}

/// A [`SessionAction`] with its texts as sequences of characters.
pub ghost enum SessionActionView {
    Send(Message<ServerKind>),
    Admit,
    StartSupervisor,
    Dispatch(Message<ClientKind>),
    Release,
    Exit(ErrorView),
}

impl View for SessionAction {
    type V = SessionActionView;

    open spec fn view(&self) -> SessionActionView {
        match self {
            SessionAction::Send(command) => SessionActionView::Send(command@),
            SessionAction::Admit => SessionActionView::Admit,
            SessionAction::StartSupervisor => SessionActionView::StartSupervisor,
            SessionAction::Dispatch(command) => SessionActionView::Dispatch(command@),
            SessionAction::Release => SessionActionView::Release,
            SessionAction::Exit(e) => SessionActionView::Exit(e@),
        }
    }
}

/// The views of a list of actions.
pub open spec fn action_views(actions: Seq<SessionAction>) -> Seq<SessionActionView> {
    Seq::new(actions.len(), |i: int| actions[i]@)
}

/// The state after an event, and what is to be done, in order.
///
/// An accepted connection gets the preamble and asks for a slot.  A client
/// that finds the server full is told so and the task ends; any other
/// failure of admission ends the task.  An admitted client's commands are
/// dispatched until a timeout, an error or the end of the stream; then the
/// slot is given back and the task ends.  An event that does not belong to
/// the state changes nothing.
pub open spec fn transition(state: SessionState, event: SessionEventView) -> (
    SessionState,
    Seq<SessionActionView>,
) {
    match (state, event) {
        (SessionState::WaitPreamble, SessionEventView::Accepted) => (
            SessionState::Admitting,
            seq![SessionActionView::Send(preamble()), SessionActionView::Admit],
        ),
        (SessionState::Admitting, SessionEventView::Admitted) => (
            SessionState::Active,
            seq![SessionActionView::StartSupervisor],
        ),
        (SessionState::Admitting, SessionEventView::AdmissionFailed(e)) => (
            SessionState::Closed,
            if e is ServerFull {
                seq![SessionActionView::Send(server_full()), SessionActionView::Exit(e)]
            } else {
                seq![SessionActionView::Exit(e)]
            },
        ),
        (SessionState::Active, SessionEventView::Command(command)) => (
            SessionState::Active,
            seq![SessionActionView::Dispatch(command)],
        ),
        (SessionState::Active, SessionEventView::DecodeFailed(e)) => (
            SessionState::Closed,
            seq![SessionActionView::Release, SessionActionView::Exit(e)],
        ),
        (SessionState::Active, SessionEventView::HandlerFailed(e)) => (
            SessionState::Closed,
            seq![SessionActionView::Release, SessionActionView::Exit(e)],
        ),
        (SessionState::Active, SessionEventView::StreamEnded) => (
            SessionState::Closed,
            seq![SessionActionView::Release, SessionActionView::Exit(ErrorView::Disconnected)],
        ),
        (SessionState::Active, SessionEventView::TimedOut) => (
            SessionState::Closed,
            seq![SessionActionView::Release, SessionActionView::Exit(ErrorView::Timeout)],
        ),
        _ => (state, Seq::empty()),
    }
}

/// The state after an event, and what is to be done, in order.
pub fn step(state: SessionState, event: SessionEvent) -> (r: (SessionState, Vec<SessionAction>))
    ensures
        r.0 == transition(state, event@).0,
        action_views(r.1@) == transition(state, event@).1,
{
    let ghost expected = transition(state, event@).1;
    let (next, actions) = match (state, event) {
        (SessionState::WaitPreamble, SessionEvent::Accepted) => (
            SessionState::Admitting,
            vec![SessionAction::Send(preamble_command()), SessionAction::Admit],
        ),
        (SessionState::Admitting, SessionEvent::Admitted) => (
            SessionState::Active,
            vec![SessionAction::StartSupervisor],
        ),
        (SessionState::Admitting, SessionEvent::AdmissionFailed(e)) => {
            let full = match &e {
                Error::ServerFull => true,
                _ => false,
            };
            if full {
                (
                    SessionState::Closed,
                    vec![SessionAction::Send(server_full_command()), SessionAction::Exit(e)],
                )
            } else {
                (SessionState::Closed, vec![SessionAction::Exit(e)])
            }
        },
        (SessionState::Active, SessionEvent::Command(command)) => (
            SessionState::Active,
            vec![SessionAction::Dispatch(command)],
        ),
        (SessionState::Active, SessionEvent::DecodeFailed(e)) => (
            SessionState::Closed,
            vec![SessionAction::Release, SessionAction::Exit(e)],
        ),
        (SessionState::Active, SessionEvent::HandlerFailed(e)) => (
            SessionState::Closed,
            vec![SessionAction::Release, SessionAction::Exit(e)],
        ),
        (SessionState::Active, SessionEvent::StreamEnded) => (
            SessionState::Closed,
            vec![SessionAction::Release, SessionAction::Exit(Error::Disconnected)],
        ),
        (SessionState::Active, SessionEvent::TimedOut) => (
            SessionState::Closed,
            vec![SessionAction::Release, SessionAction::Exit(Error::Timeout)],
        ),
        (state, _) => (state, Vec::new()),
    };
    assert(action_views(actions@) =~= expected);
    (next, actions)
}

/// A connection that is over stays over, and asks for nothing more.
pub proof fn lemma_closed_is_final(event: SessionEventView)
    ensures
        transition(SessionState::Closed, event) == (
            SessionState::Closed,
            Seq::<SessionActionView>::empty(),
        ),
{
}

/// A slot is given back exactly when an admitted client's connection ends:
/// the step that closes an active connection asks for the release first and
/// for the exit last, and no other step asks for a release.
pub proof fn lemma_release_on_close(state: SessionState, event: SessionEventView)
    ensures
        ({
            let (next, actions) = transition(state, event);
            let closes = state == SessionState::Active && next == SessionState::Closed;
            &&& closes ==> actions.len() == 2 && actions[0] is Release && actions[1] is Exit
            &&& !closes ==> forall|i: int| 0 <= i < actions.len() ==> !(actions[i] is Release)
        }),
{
}

} // verus!
