use crate::peer::PeerAddr;
use crate::registry::{after_disconnect, after_naming, has_id, index_of, lemma_remove_idempotent, Registry};
use crate::server::{carries, handle_client_connect, Broadcast};
use crate::text::{decode_lossy, joined_text, leave_notice, left_text, lossy_text, trimmed};
use vstd::prelude::*;

verus! {

/// Where a connection is in its life.
#[derive(Debug)]
pub enum Phase {
    /// Accepted; its first chunk, the username, has not come yet.
    Connecting,
    /// Joined under a username that is never empty.
    Active { username: String },
    /// Done: its registry entry is gone and its socket is to be released.
    Closed,
}

/// What happened on a connection's socket or mailbox.
#[derive(Debug)]
pub enum Event {
    /// One read from the socket gave these bytes (at least one).
    Inbound(Vec<u8>),
    /// A read from the socket found its end, or failed.
    ReadEnded,
    /// The mailbox gave this text to write to the socket.
    Outbound(String),
    /// Writing to the socket failed.
    WriteFailed,
}

/// What the task serving a connection does next.
#[derive(Debug)]
pub enum Action {
    /// Hand this message out to its recipients, then go on.
    Broadcast(Broadcast),
    /// Write this text to the socket and flush it, then go on.
    Write(String),
    /// Hand out the message, if there is one, then release the socket and stop.
    Close(Option<Broadcast>),
}

/// The decisions of the task that serves one connection.
#[derive(Debug)]
pub struct ConnectionActor {
    addr: PeerAddr,
    phase: Phase,
}

impl ConnectionActor {
    pub closed spec fn spec_addr(&self) -> PeerAddr {
        self.addr
    }

    pub closed spec fn spec_phase(&self) -> Phase {
        self.phase
    }

    /// A connection never becomes active under an empty username.
    pub open spec fn wf(&self) -> bool {
        self.spec_phase() matches Phase::Active { username } ==> username@.len() > 0
    }

    /// The task for a connection that was just accepted and registered.
    pub fn new(addr: PeerAddr) -> (r: ConnectionActor)
        ensures
            r.wf(),
            r.spec_addr() == addr,
            r.spec_phase() is Connecting,
    {
        ConnectionActor { addr, phase: Phase::Connecting }
    }

    pub fn addr(&self) -> (r: PeerAddr)
        ensures
            r == self.spec_addr(),
    {
        self.addr
    }

    pub fn phase(&self) -> (r: &Phase)
        ensures
            *r == self.spec_phase(),
    {
        &self.phase
    }

    /// Decides what one event does to the connection and the registry, and
    /// what the task does next.
    pub fn step(&mut self, registry: &mut Registry, event: Event) -> (r: Action)
        requires
            old(self).wf(),
            old(registry).wf(),
        ensures
            final(self).wf(),
            final(registry).wf(),
            final(self).spec_addr() == old(self).spec_addr(),
            !(old(self).spec_phase() is Closed) && final(self).spec_phase() is Closed ==> !has_id(
                final(registry)@,
                old(self).spec_addr(),
            ),
            final(registry).mailboxes() == if !(old(self).spec_phase() is Closed)
                && final(self).spec_phase() is Closed && has_id(old(registry)@, old(self).spec_addr()) {
                old(registry).mailboxes().remove(index_of(old(registry)@, old(self).spec_addr()))
            } else {
                old(registry).mailboxes()
            },
            ({
                let addr = old(self).spec_addr();
                let before = old(registry)@;
                let after = final(registry)@;
                match (old(self).spec_phase(), event) {
                    (Phase::Closed, _) => final(self).spec_phase() is Closed && after == before
                        && r matches Action::Close(None),
                    (_, Event::Outbound(text)) => final(self).spec_phase() == old(self).spec_phase()
                        && after == before && (r matches Action::Write(w) && w@ == text@),
                    (Phase::Connecting, Event::Inbound(chunk)) => {
                        let t = trimmed(lossy_text(chunk@));
                        if t.len() > 0 && has_id(before, addr) {
                            &&& final(self).spec_phase() matches Phase::Active { username } && username@ == t
                            &&& after == after_naming(before, addr, t)
                            &&& r matches Action::Broadcast(b) && carries(b, addr, joined_text(t), after, final(registry).mailboxes())
                        } else {
                            &&& final(self).spec_phase() is Closed
                            &&& after == after_disconnect(before, addr)
                            &&& r matches Action::Close(None)
                        }
                    },
                    (Phase::Connecting, _) => final(self).spec_phase() is Closed && after
                        == after_disconnect(before, addr) && r matches Action::Close(None),
                    (Phase::Active { .. }, Event::Inbound(chunk)) => final(self).spec_phase()
                        == old(self).spec_phase() && after == before && (r matches Action::Broadcast(b)
                        && carries(b, addr, lossy_text(chunk@), before, old(registry).mailboxes())),
                    (Phase::Active { username }, _) => {
                        &&& final(self).spec_phase() is Closed
                        &&& after == after_disconnect(before, addr)
                        &&& r matches Action::Close(Some(b)) && carries(
                            b,
                            addr,
                            left_text(username@),
                            before,
                            old(registry).mailboxes(),
                        )
                    },
                }
            }),
    {
        let ghost before = registry@;
        if matches!(self.phase, Phase::Closed) {
            return Action::Close(None);
        }
        match event {
            Event::Outbound(text) => Action::Write(text),
            Event::Inbound(chunk) => {
                if matches!(self.phase, Phase::Connecting) {
                    match handle_client_connect(registry, self.addr, chunk.as_slice()) {
                        Ok((username, b)) => {
                            self.phase = Phase::Active { username };
                            Action::Broadcast(b)
                        },
                        Err(_) => {
                            registry.remove(self.addr);
                            proof {
                                lemma_remove_idempotent(before, self.addr);
                            }
                            self.phase = Phase::Closed;
                            Action::Close(None)
                        },
                    }
                } else {
                    let text = decode_lossy(chunk.as_slice());
                    Action::Broadcast(Broadcast { peers: registry.snapshot(), from: self.addr, text })
                }
            },
            Event::ReadEnded | Event::WriteFailed => {
                let peers = registry.snapshot();
                registry.remove(self.addr);
                proof {
                    lemma_remove_idempotent(before, self.addr);
                }
                let notice = match &self.phase {
                    Phase::Active { username } => Some(
                        Broadcast { peers, from: self.addr, text: leave_notice(username.as_str()) },
                    ),
                    _ => None,
                };
                self.phase = Phase::Closed;
                Action::Close(notice)
            },
        }
    }
}

} // verus!
