//! The conversation with the master directory.
//!
//! The server keeps a connection to a directory that lists servers.  The
//! directory asks whether the server is there, and the server answers; the
//! directory says that it does not know the server, and the server presents
//! itself.

use crate::command::{joined, message_text};
use crate::config::MasterServerConfig;
use crate::error::{Error, ErrorView};
use crate::master_command::{MasterServerCommand, MasterServerKind};
use crate::text::{push_char, render_int, render_u16};
use vstd::prelude::*;
use vstd::string::*;

verus! {

/// What the server waits for.
#[derive(Clone, Copy, Debug, PartialEq, Eq, Structural)]
pub enum MasterServerClientState {
    WaitCommand,
    WaitPong,
}

/// What arrived from the directory.
#[derive(Debug)]
pub enum MasterServerEvent {
    Command(MasterServerCommand),
    StreamEnded,
}

/// The ports under which the server is listed: the port, and after `&` the
/// websocket port where there is one.
pub open spec fn ports_text(port: u16, websocket_port: Option<u16>) -> Seq<char> {
    match websocket_port {
        Some(websocket) => render_int(port as int) + seq!['&'] + render_int(websocket as int),
        None => render_int(port as int),
    }
}

/// The message by which the server presents itself: `SCC` with the ports,
/// the name, the description and the software.
pub open spec fn server_info_text(
    master: MasterServerConfig,
    websocket_port: Option<u16>,
    software: Seq<char>,
) -> Seq<char> {
    message_text(
        "SCC"@,
        seq![
            ports_text(master.port, websocket_port),
            master.name@,
            master.description@,
            software,
        ],
    )
}

/// The message that answers the directory's check.
pub open spec fn ping_text() -> Seq<char> {
    message_text("PING"@, Seq::empty())
}

/// The message by which the server presents itself.
pub fn pack_server_info(master: &MasterServerConfig, websocket_port: Option<u16>, software: &str)
    -> (r: String)
    ensures
        r@ == server_info_text(*master, websocket_port, software@),
{
    let mut port = render_u16(master.port);
    match websocket_port {
        Some(websocket) => {
            push_char(&mut port, '&');
            port.append(render_u16(websocket).as_str());
        },
        None => {},
    }
    assert(port@ =~= ports_text(master.port, websocket_port));
    let mut out = String::from_str("SCC");
    push_char(&mut out, '#');
    out.append(port.as_str());
    push_char(&mut out, '#');
    out.append(master.name.as_str());
    push_char(&mut out, '#');
    out.append(master.description.as_str());
    push_char(&mut out, '#');
    out.append(software);
    push_char(&mut out, '#');
    push_char(&mut out, '%');
    proof {
        let args = seq![port@, master.name@, master.description@, software@];
        let three = args.drop_last();
        let two = three.drop_last();
        let one = two.drop_last();
        assert(one.drop_last() =~= Seq::<Seq<char>>::empty());
        assert(joined(one.drop_last()) =~= Seq::<char>::empty());
        assert(one.last() == port@);
        assert(two.last() == master.name@);
        assert(three.last() == master.description@);
        assert(joined(one) =~= port@ + seq!['#']);
        assert(joined(two) =~= joined(one) + master.name@ + seq!['#']);
        assert(joined(three) =~= joined(two) + master.description@ + seq!['#']);
        assert(joined(args) =~= joined(three) + software@ + seq!['#']);
        assert(out@ =~= message_text("SCC"@, args));
    }
    out
}

/// The state after an event, and the message to send, if any.
pub open spec fn master_transition(
    state: MasterServerClientState,
    kind: MasterServerKind,
    info: Seq<char>,
) -> (MasterServerClientState, Option<Seq<char>>) {
    match kind {
        MasterServerKind::Check => (MasterServerClientState::WaitPong, Some(ping_text())),
        MasterServerKind::Pong => (MasterServerClientState::WaitCommand, None),
        MasterServerKind::NOSERV => (state, Some(info)),
    }
}

/// One turn of the conversation: what the server waits for next, and the
/// message to send, if any.  The end of the stream is an error.
pub fn connection_step(
    state: MasterServerClientState,
    event: MasterServerEvent,
    master: &MasterServerConfig,
    websocket_port: Option<u16>,
    software: &str,
) -> (r: Result<(MasterServerClientState, Option<String>), Error>)
    ensures
        match event {
            MasterServerEvent::StreamEnded => r matches Err(e) && e@ == ErrorView::UnexpectedEnd,
            MasterServerEvent::Command(command) => r matches Ok((next, message)) && ({
                let expected = master_transition(
                    state,
                    command@.kind,
                    server_info_text(*master, websocket_port, software@),
                );
                &&& next == expected.0
                &&& match message {
                    Some(text) => expected.1 == Some(text@),
                    None => expected.1 is None,
                }
            }),
        },
{
    let command = match event {
        MasterServerEvent::Command(command) => command,
        MasterServerEvent::StreamEnded => return Err(Error::UnexpectedEnd),
    };
    match command {
        MasterServerCommand::Check => {
            let mut ping = String::from_str("PING");
            push_char(&mut ping, '#');
            push_char(&mut ping, '%');
            assert(joined(Seq::<Seq<char>>::empty()) =~= Seq::<char>::empty());
            assert(ping@ =~= ping_text());
            Ok((MasterServerClientState::WaitPong, Some(ping)))
        },
        MasterServerCommand::Pong => Ok((MasterServerClientState::WaitCommand, None)),
        MasterServerCommand::NOSERV => Ok(
            (state, Some(pack_server_info(master, websocket_port, software))),
        ),
    }
}

} // verus!
