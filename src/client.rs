use crate::peer::PeerAddr;
use tokio::sync::mpsc::error::TrySendError;
use tokio::sync::mpsc::Sender;
use vstd::prelude::*;

verus! {

/// The sending half of a connection's bounded mailbox.
#[verifier::external_type_specification]
#[verifier::external_body]
#[verifier::reject_recursive_types(T)]
pub struct ExSender<T>(Sender<T>);

/// What became of one attempt to queue a text in a mailbox.
#[derive(Clone, Copy, Debug, PartialEq, Eq, Structural)]
pub enum PostOutcome {
    /// The text is queued behind what was queued before it.
    Queued,
    /// The mailbox is at capacity; the text is dropped.
    Full,
    /// The mailbox's reader has stopped; the text is dropped.
    Closed,
}

/// One attempt to queue a text: the mailbox and the text that were handed to
/// the channel, and what became of them.
pub struct Posting {
    pub outcome: PostOutcome,
    pub mailbox: Ghost<Sender<String>>,
    pub text: Ghost<Seq<char>>,
}

/// Relies on tokio's `Sender::try_send`: it never waits, and either queues the
/// text or hands it back as a full or closed channel. Which of the three comes
/// depends on the other tasks; what is stated is which mailbox and which text
/// the attempt was made with.
#[verifier::external_body]
pub(crate) fn try_post(mailbox: &Sender<String>, text: String) -> (r: Posting)
    ensures
        r.mailbox@ == *mailbox,
        r.text@ == text@,
{
    let record = Ghost(text@);
    let outcome = match mailbox.try_send(text) {
        Ok(()) => PostOutcome::Queued,
        Err(TrySendError::Full(_)) => PostOutcome::Full,
        Err(TrySendError::Closed(_)) => PostOutcome::Closed,
    };
    Posting { outcome, mailbox: Ghost(*mailbox), text: record }
}

/// Relies on tokio's `Clone for Sender`: another handle on the same channel,
/// holding nothing of its own but a share of it.
#[verifier::external_body]
fn share_mailbox(mailbox: &Sender<String>) -> (r: Sender<String>)
    ensures
        r == *mailbox,
{
    mailbox.clone()
}

/// The username of a connection as text, if it has one.
pub open spec fn name_view(name: Option<String>) -> Option<Seq<char>> {
    match name {
        Some(s) => Some(s@),
        None => None,
    }
}

/// One live connection as the registry knows it: its endpoint, its username
/// once one is assigned, and the handle on its outbound mailbox.
#[derive(Debug)]
pub struct Client {
    pub(crate) username: Option<String>,
    pub(crate) addr: PeerAddr,
    pub(crate) sender: Sender<String>,
}

impl View for Client {
    type V = (PeerAddr, Option<Seq<char>>);

    open(crate) spec fn view(&self) -> (PeerAddr, Option<Seq<char>>) {
        (self.addr, name_view(self.username))
    }
}

impl Client {
    /// The handle on this connection's mailbox.
    pub closed spec fn mailbox(&self) -> Sender<String> {
        self.sender
    }

    /// A connection that was just accepted: no username yet.
    pub fn new(addr: PeerAddr, sender: Sender<String>) -> (r: Client)
        ensures
            r@ == (addr, None::<Seq<char>>),
            r.mailbox() == sender,
    {
        Client { username: None, addr, sender }
    }

    /// Sets the username, replacing any earlier one.
    pub fn set_username(&mut self, username: String)
        ensures
            final(self)@ == (old(self)@.0, Some(username@)),
            final(self).mailbox() == old(self).mailbox(),
    {
        self.username = Some(username);
    }

    pub fn get_username(&self) -> (r: &Option<String>)
        ensures
            name_view(*r) == self@.1,
    {
        &self.username
    }

    pub fn get_addr(&self) -> (r: PeerAddr)
        ensures
            r == self@.0,
    {
        self.addr
    }

    pub fn get_sender(&self) -> (r: &Sender<String>)
        ensures
            *r == self.mailbox(),
    {
        &self.sender
    }

    /// Whether this connection is the one at `addr`.
    pub fn addr_eq(&self, addr: PeerAddr) -> (r: bool)
        ensures
            r == (self@.0 == addr),
    {
        self.addr == addr
    }

    /// A copy of this record whose mailbox handle reaches the same channel.
    pub fn duplicate(&self) -> (r: Client)
        ensures
            r@ == self@,
            r.mailbox() == self.mailbox(),
    {
        let username = match &self.username {
            Some(s) => Some(s.clone()),
            None => None,
        };
        Client { username, addr: self.addr, sender: share_mailbox(&self.sender) }
    }

    /// Tries to queue `text` in this connection's mailbox without waiting.
    pub fn post(&self, text: String) -> (r: Posting)
        ensures
            r.mailbox@ == self.mailbox(),
            r.text@ == text@,
    {
        try_post(&self.sender, text)
    }
}

} // verus!
