//! What a step of the state machine asks of its host: events to hand to the
//! application, and commands for the transport and the clock.

use vstd::prelude::*;
use crate::event::Event;
use crate::messages::Variant;
use crate::p2p_node::{ConnectionInfo, PeerAddr};

verus! {

/// A command for the host of the state machine.
#[derive(Debug, PartialEq, Eq)]
pub enum Command {
    /// Dial the configured contacts. The transport answers with the contact
    /// that it reached, or with a failure to bootstrap.
    Bootstrap,
    /// Send a message with this content straight to this peer.
    SendDirect { dst: ConnectionInfo, variant: Variant },
    /// Send a message with this content straight to each of these peers.
    SendDirectToAll { dsts: Vec<ConnectionInfo>, variant: Variant },
    /// Pass the message that is being handled on to each of these peers.
    Forward { dsts: Vec<ConnectionInfo> },
    /// Close the connection to this peer.
    Disconnect(PeerAddr),
    /// Close every connection.
    DisconnectAll,
    /// Hand `token` back once `duration` milliseconds have passed.
    Schedule { token: u64, duration: u64 },
}

/// Collects the events and the commands of a step, each in the order in
/// which they were issued.
#[derive(Debug)]
pub struct Outbox {
    pub events: Vec<Event>,
    pub commands: Vec<Command>,
}

impl Outbox {
    /// Creates an empty outbox.
    pub fn new() -> (outbox: Outbox)
        ensures
            outbox.events@ == Seq::<Event>::empty(),
            outbox.commands@ == Seq::<Command>::empty(),
    {
        Outbox { events: Vec::new(), commands: Vec::new() }
    }

    /// Adds an event for the application.
    pub fn send_event(&mut self, event: Event)
        ensures
            final(self).events@ == old(self).events@.push(event),
            final(self).commands@ == old(self).commands@,
    {
        self.events.push(event);
    }

    /// Adds a command for the host.
    pub fn send_command(&mut self, command: Command)
        ensures
            final(self).commands@ == old(self).commands@.push(command),
            final(self).events@ == old(self).events@,
    {
        self.commands.push(command);
    }
}

} // verus!
