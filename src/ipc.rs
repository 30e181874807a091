//! The commands exchanged between the dashboard and the background service,
//! and their wire form. The socket itself is handled by the caller.

use crate::text::{chars_of, same_str, string_of, trim_chars, trimmed};
use vstd::prelude::*;

verus! {

/// Default port for IPC communication
pub const IPC_PORT: u16 = 9549;

/// Commands that can be sent via IPC
#[derive(Debug, Clone, Copy, PartialEq, Eq, Structural)]
pub enum IpcCommand {
    /// Reload the active recipe from disk
    ReloadRecipe,
    /// Toggle transformation
    ToggleTransformation,
    /// Ping to check if service is running
    Ping,
}

/// The word that stands for each command on the wire.
pub open spec fn command_word(c: IpcCommand) -> Seq<char> {
    match c {
        IpcCommand::ReloadRecipe => "RELOAD"@,
        IpcCommand::ToggleTransformation => "TRANSFORM"@,
        IpcCommand::Ping => "PING"@,
    }
}

/// The command named by a message, once trimmed.
pub open spec fn command_named(t: Seq<char>) -> Option<IpcCommand> {
    let w = trimmed(t);
    if w == "RELOAD"@ {
        Some(IpcCommand::ReloadRecipe)
    } else if w == "TRANSFORM"@ {
        Some(IpcCommand::ToggleTransformation)
    } else if w == "PING"@ {
        Some(IpcCommand::Ping)
    } else {
        None
    }
}

/// The command that a received message names, ignoring white space around
/// it; `None` for anything else.
pub fn parse_command(message: &str) -> (r: Option<IpcCommand>)
    ensures
        r == command_named(message@),
{
    let w = string_of(&trim_chars(&chars_of(message)));
    if same_str(w.as_str(), "RELOAD") {
        Some(IpcCommand::ReloadRecipe)
    } else if same_str(w.as_str(), "TRANSFORM") {
        Some(IpcCommand::ToggleTransformation)
    } else if same_str(w.as_str(), "PING") {
        Some(IpcCommand::Ping)
    } else {
        None
    }
}

/// Whether a received message is a ping, which is answered with `PONG`.
pub fn is_ping(message: &str) -> (r: bool)
    ensures
        r == (command_named(message@) == Some(IpcCommand::Ping)),
{
    match parse_command(message) {
        Some(IpcCommand::Ping) => true,
        _ => false,
    }
}

/// The answer to a ping.
pub open spec fn pong() -> Seq<u8> {
    seq![0x50u8, 0x4Fu8, 0x4Eu8, 0x47u8]
}

/// IPC Server - runs in the background service
pub struct IpcServer {
    running: bool,
}

impl IpcServer {
    /// Whether the server is meant to keep accepting connections.
    pub closed spec fn running(&self) -> bool {
        self.running
    }

    /// A server that is not running yet.
    pub fn new() -> (r: IpcServer)
        ensures
            !r.running(),
    {
        IpcServer { running: false }
    }

    /// Marks the server running, as its listener starts.
    pub fn start(&mut self)
        ensures
            final(self).running(),
    {
        self.running = true;
    }

    /// Asks the listener to stop.
    pub fn stop(&mut self)
        ensures
            !final(self).running(),
    {
        self.running = false;
    }

    /// Whether the server is meant to keep accepting connections.
    pub fn is_running(&self) -> (r: bool)
        ensures
            r == self.running(),
    {
        self.running
    }
}

impl Default for IpcServer {
    fn default() -> (r: IpcServer)
        ensures
            !r.running(),
    {
        IpcServer::new()
    }
}

/// IPC Client - used by the dashboard to send commands
pub struct IpcClient;

impl IpcClient {
    /// The word sent on the wire for a command.
    pub fn command_text(command: IpcCommand) -> (r: &'static str)
        ensures
            r@ == command_word(command),
    {
        match command {
            IpcCommand::ReloadRecipe => "RELOAD",
            IpcCommand::ToggleTransformation => "TRANSFORM",
            IpcCommand::Ping => "PING",
        }
    }

    /// Whether the four bytes received after a ping are `PONG`.
    pub fn is_pong(reply: &[u8]) -> (r: bool)
        ensures
            r == (reply@ == pong()),
    {
        if reply.len() != 4 {
            return false;
        }
        let ok = reply[0] == 0x50 && reply[1] == 0x4F && reply[2] == 0x4E && reply[3] == 0x47;
        if ok {
            assert(reply@ == pong());
        }
        ok
    }
}

} // verus!
