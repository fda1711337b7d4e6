use crate::client::Client;
use crate::fanout::{entries, send_message, Delivery};
use crate::peer::PeerAddr;
use crate::registry::{after_disconnect, after_naming, has_id, index_of, name_of_entry, Entry, Registry};
use crate::text::{
    validate_username, decode_lossy, join_notice, joined_text, leave_notice, left_text, lossy_text,
    trim_text, trimmed, UsernameError,
};
use tokio::sync::mpsc::Sender;
use vstd::prelude::*;

verus! {

/// A message to hand out: the recipients as they stood when it was made,
/// the connection it comes from, and its text.
#[derive(Debug)]
pub struct Broadcast {
    pub peers: Vec<Client>,
    pub from: PeerAddr,
    pub text: String,
}

/// `b` carries `text` from `from` to a copy of the registry entries `s`
/// whose mailbox handles are `boxes`.
pub open spec fn carries(
    b: Broadcast,
    from: PeerAddr,
    text: Seq<char>,
    s: Seq<Entry>,
    boxes: Seq<Sender<String>>,
) -> bool {
    &&& b.from == from
    &&& b.text@ == text
    &&& entries(b.peers@) == s
    &&& b.peers@.map_values(|c: Client| c.mailbox()) == boxes
}

impl Broadcast {
    /// Offers the text to every recipient but the sender; see `send_message`.
    pub fn deliver(&self) -> (r: Vec<Delivery>)
        ensures
            crate::fanout::targets(r@) == crate::fanout::recipients(entries(self.peers@), self.from),
            crate::fanout::offers_to_peers(r@, self.peers@, self.from, self.text@),
    {
        send_message(&self.peers, self.from, &self.text)
    }
}

/// Names the connection at `addr` after an input that is already trimmed.
/// An empty input is refused first; then an endpoint that is not registered.
pub fn name_connection(registry: &mut Registry, addr: PeerAddr, trimmed_input: String) -> (r: Result<String, UsernameError>)
    requires
        old(registry).wf(),
    ensures
        final(registry).wf(),
        final(registry).mailboxes() == old(registry).mailboxes(),
        final(registry)@.len() == old(registry)@.len(),
        forall|i: int| 0 <= i < old(registry)@.len() ==> #[trigger] final(registry)@[i].0 == old(registry)@[i].0,
        trimmed_input@.len() == 0 ==> r == Err::<String, UsernameError>(UsernameError::Empty)
            && final(registry)@ == old(registry)@,
        trimmed_input@.len() > 0 && !has_id(old(registry)@, addr) ==> r == Err::<String, UsernameError>(
            UsernameError::NotFound,
        ) && final(registry)@ == old(registry)@,
        trimmed_input@.len() > 0 && has_id(old(registry)@, addr) ==> (r matches Ok(name) && name@
            == trimmed_input@) && final(registry)@ == after_naming(old(registry)@, addr, trimmed_input@),
{
    let name = validate_username(trimmed_input)?;
    match registry.set_username(addr, name.clone()) {
        Ok(()) => Ok(name),
        Err(_) => Err(UsernameError::NotFound),
    }
}

/// Takes the first chunk a connection sent as its username: decoded with
/// invalid sequences replaced, then trimmed.
pub fn assign_username(registry: &mut Registry, addr: PeerAddr, chunk: &[u8]) -> (r: Result<String, UsernameError>)
    requires
        old(registry).wf(),
    ensures
        final(registry).wf(),
        final(registry).mailboxes() == old(registry).mailboxes(),
        final(registry)@.len() == old(registry)@.len(),
        forall|i: int| 0 <= i < old(registry)@.len() ==> #[trigger] final(registry)@[i].0 == old(registry)@[i].0,
        ({
            let t = trimmed(lossy_text(chunk@));
            &&& t.len() == 0 ==> r == Err::<String, UsernameError>(UsernameError::Empty)
                && final(registry)@ == old(registry)@
            &&& t.len() > 0 && !has_id(old(registry)@, addr) ==> r == Err::<String, UsernameError>(
                UsernameError::NotFound,
            ) && final(registry)@ == old(registry)@
            &&& t.len() > 0 && has_id(old(registry)@, addr) ==> (r matches Ok(name) && name@ == t)
                && final(registry)@ == after_naming(old(registry)@, addr, t)
        }),
{
    let text = decode_lossy(chunk);
    name_connection(registry, addr, trim_text(text.as_str()))
}

/// Names the connection at `addr` from its first chunk and, on success,
/// gives back the username and the join notice for every connection registered at that moment.
pub fn handle_client_connect(registry: &mut Registry, addr: PeerAddr, chunk: &[u8]) -> (r: Result<(String, Broadcast), UsernameError>)
    requires
        old(registry).wf(),
    ensures
        final(registry).wf(),
        final(registry).mailboxes() == old(registry).mailboxes(),
        final(registry)@.len() == old(registry)@.len(),
        forall|i: int| 0 <= i < old(registry)@.len() ==> #[trigger] final(registry)@[i].0 == old(registry)@[i].0,
        ({
            let t = trimmed(lossy_text(chunk@));
            &&& t.len() == 0 ==> (r matches Err(e) && e == UsernameError::Empty)
                && final(registry)@ == old(registry)@
            &&& t.len() > 0 && !has_id(old(registry)@, addr) ==> (r matches Err(e) && e
                == UsernameError::NotFound) && final(registry)@ == old(registry)@
            &&& t.len() > 0 && has_id(old(registry)@, addr) ==> final(registry)@ == after_naming(
                old(registry)@,
                addr,
                t,
            ) && (r matches Ok((name, b)) && name@ == t && carries(b, addr, joined_text(t), final(registry)@, final(registry).mailboxes()))
        }),
{
    let username = assign_username(registry, addr, chunk)?;
    let text = join_notice(username.as_str());
    Ok((username, Broadcast { peers: registry.snapshot(), from: addr, text }))
}

/// Removes the connection at `addr`. Where it had joined under a username,
/// also makes the leave notice for the connections registered just before
/// the removal; a connection that never got a username leaves silently, and
/// an endpoint that is not registered changes nothing.
pub fn handle_client_disconnect(registry: &mut Registry, addr: PeerAddr) -> (r: Option<Broadcast>)
    requires
        old(registry).wf(),
    ensures
        final(registry).wf(),
        final(registry).mailboxes() == if has_id(old(registry)@, addr) {
            old(registry).mailboxes().remove(index_of(old(registry)@, addr))
        } else {
            old(registry).mailboxes()
        },
        final(registry)@ == after_disconnect(old(registry)@, addr),
        r is Some <==> has_id(old(registry)@, addr) && name_of_entry(old(registry)@, addr) is Some,
        r matches Some(b) ==> carries(
            b,
            addr,
            left_text(name_of_entry(old(registry)@, addr)->Some_0),
            old(registry)@,
            old(registry).mailboxes(),
        ),
{
    let notice = match registry.username_of(addr) {
        Some(Some(name)) => Some(Broadcast { peers: registry.snapshot(), from: addr, text: leave_notice(name.as_str()) }),
        _ => None,
    };
    registry.remove(addr);
    notice
}

} // verus!
