use crate::client::Client;
use crate::peer::PeerAddr;
use tokio::sync::mpsc::Sender;
use vstd::prelude::*;

verus! {

/// What the registry knows of one connection: its endpoint and its username.
pub type Entry = (PeerAddr, Option<Seq<char>>);

/// No endpoint appears twice.
pub open spec fn ids_unique(s: Seq<Entry>) -> bool {
    forall|i: int, j: int| 0 <= i < s.len() && 0 <= j < s.len() && i != j ==> s[i].0 != s[j].0
}

pub open spec fn has_id(s: Seq<Entry>, id: PeerAddr) -> bool {
    exists|i: int| 0 <= i < s.len() && s[i].0 == id
}

/// The position of the entry for `id`, where there is one.
pub open spec fn index_of(s: Seq<Entry>, id: PeerAddr) -> int {
    choose|i: int| 0 <= i < s.len() && s[i].0 == id
}

/// The entries once `id` has connected: a new entry without a username at
/// the end, unless `id` is already there.
pub open spec fn after_connect(s: Seq<Entry>, id: PeerAddr) -> Seq<Entry> {
    if has_id(s, id) {
        s
    } else {
        s.push((id, None))
    }
}

/// The entries once `id` has disconnected: its entry is gone, if it had one.
pub open spec fn after_disconnect(s: Seq<Entry>, id: PeerAddr) -> Seq<Entry> {
    if has_id(s, id) {
        s.remove(index_of(s, id))
    } else {
        s
    }
}

/// The entries once `id` is named `name`, if `id` is there.
pub open spec fn after_naming(s: Seq<Entry>, id: PeerAddr, name: Seq<char>) -> Seq<Entry> {
    if has_id(s, id) {
        s.update(index_of(s, id), (id, Some(name)))
    } else {
        s
    }
}

/// Why the registry refused a change.
#[derive(Clone, Copy, Debug, PartialEq, Eq, Structural)]
pub enum RegistryError {
    /// A connection with this endpoint is already registered.
    AlreadyRegistered,
    /// No connection with this endpoint is registered.
    NotFound,
}

/// The set of live connections, in the order they were registered.
pub struct Registry {
    pub(crate) clients: Vec<Client>,
}

impl View for Registry {
    type V = Seq<Entry>;

    open(crate) spec fn view(&self) -> Seq<Entry> {
        self.clients@.map_values(|c: Client| c@)
    }
}

impl Registry {
    /// The mailbox handle of each entry, in the order of the entries.
    pub closed spec fn mailboxes(&self) -> Seq<Sender<String>> {
        self.clients@.map_values(|c: Client| c.mailbox())
    }

    /// Every endpoint is registered at most once.
    pub open spec fn wf(&self) -> bool {
        ids_unique(self@)
    }

    pub fn new() -> (r: Registry)
        ensures
            r.wf(),
            r@ == Seq::<Entry>::empty(),
    {
        let r = Registry { clients: Vec::new() };
        assert(r@ =~= Seq::<Entry>::empty());
        r
    }

    /// The number of registered connections.
    pub fn len(&self) -> (r: usize)
        ensures
            r == self@.len(),
    {
        self.clients.len()
    }

    /// The position of the connection at `addr`.
    fn find(&self, addr: PeerAddr) -> (r: Option<usize>)
        requires
            self.wf(),
        ensures
            match r {
                Some(i) => i < self@.len() && self@[i as int].0 == addr && index_of(self@, addr)
                    == i && has_id(self@, addr),
                None => !has_id(self@, addr),
            },
    {
        let mut i: usize = 0;
        while i < self.clients.len()
            invariant
                self.wf(),
                i <= self.clients@.len(),
                forall|k: int| 0 <= k < i ==> self@[k].0 != addr,
            decreases self.clients@.len() - i,
        {
            if self.clients[i].addr_eq(addr) {
                assert(self@[i as int].0 == addr);
                assert(has_id(self@, addr));
                proof {
                    let j = index_of(self@, addr);
                    assert(0 <= j < self@.len() && self@[j].0 == addr);
                    assert(j == i as int);
                }
                return Some(i);
            }
            i += 1;
        }
        None
    }

    /// Whether a connection at `addr` is registered.
    pub fn contains(&self, addr: PeerAddr) -> (r: bool)
        requires
            self.wf(),
        ensures
            r == has_id(self@, addr),
    {
        self.find(addr).is_some()
    }

    /// Registers a connection that was just accepted, without a username.
    /// Refused where its endpoint is already registered.
    pub fn register(&mut self, addr: PeerAddr, sender: Sender<String>) -> (r: Result<(), RegistryError>)
        requires
            old(self).wf(),
        ensures
            final(self).wf(),
            final(self)@ == after_connect(old(self)@, addr),
            final(self).mailboxes() == if has_id(old(self)@, addr) {
                old(self).mailboxes()
            } else {
                old(self).mailboxes().push(sender)
            },
            r is Err <==> has_id(old(self)@, addr),
            r matches Err(e) ==> e == RegistryError::AlreadyRegistered,
    {
        if self.find(addr).is_some() {
            return Err(RegistryError::AlreadyRegistered);
        }
        let c = Client::new(addr, sender);
        self.clients.push(c);
        assert(self@ =~= old(self)@.push((addr, None)));
        assert(self.mailboxes() =~= old(self).mailboxes().push(sender));
        Ok(())
    }

    /// Sets the username of the connection at `addr`, replacing any earlier
    /// one. Usernames need not be unique.
    pub fn set_username(&mut self, addr: PeerAddr, username: String) -> (r: Result<(), RegistryError>)
        requires
            old(self).wf(),
        ensures
            final(self).wf(),
            final(self)@ == after_naming(old(self)@, addr, username@),
            final(self).mailboxes() == old(self).mailboxes(),
            final(self)@.len() == old(self)@.len(),
            forall|i: int| 0 <= i < old(self)@.len() ==> #[trigger] final(self)@[i].0 == old(self)@[i].0,
            r is Err <==> !has_id(old(self)@, addr),
            r matches Err(e) ==> e == RegistryError::NotFound,
    {
        match self.find(addr) {
            None => Err(RegistryError::NotFound),
            Some(i) => {
                let mut c = self.clients.remove(i);
                c.set_username(username);
                self.clients.insert(i, c);
                assert(self@ =~= old(self)@.update(i as int, (addr, Some(username@))));
                assert(self.mailboxes() =~= old(self).mailboxes());
                Ok(())
            },
        }
    }

    /// Removes the connection at `addr`. Removing an endpoint that is not
    /// registered changes nothing. Tells whether an entry was removed.
    pub fn remove(&mut self, addr: PeerAddr) -> (r: bool)
        requires
            old(self).wf(),
        ensures
            final(self).wf(),
            final(self)@ == after_disconnect(old(self)@, addr),
            final(self).mailboxes() == if has_id(old(self)@, addr) {
                old(self).mailboxes().remove(index_of(old(self)@, addr))
            } else {
                old(self).mailboxes()
            },
            r == has_id(old(self)@, addr),
    {
        match self.find(addr) {
            None => false,
            Some(i) => {
                let _gone = self.clients.remove(i);
                assert(self@ =~= old(self)@.remove(i as int));
                assert(self.mailboxes() =~= old(self).mailboxes().remove(i as int));
                true
            },
        }
    }

    /// The username of the connection at `addr`, if it is registered.
    pub fn username_of(&self, addr: PeerAddr) -> (r: Option<Option<String>>)
        requires
            self.wf(),
        ensures
            match r {
                Some(name) => has_id(self@, addr) && name_of_entry(self@, addr) == crate::client::name_view(name),
                None => !has_id(self@, addr),
            },
    {
        match self.find(addr) {
            None => None,
            Some(i) => {
                let name = match self.clients[i].get_username() {
                    Some(s) => Some(s.clone()),
                    None => None,
                };
                Some(name)
            },
        }
    }

    /// A point-in-time copy of every registered connection, so that texts can
    /// be posted to their mailboxes after the registry is let go.
    pub fn snapshot(&self) -> (r: Vec<Client>)
        ensures
            r@.map_values(|c: Client| c@) == self@,
            r@.map_values(|c: Client| c.mailbox()) == self.mailboxes(),
    {
        let mut out: Vec<Client> = Vec::new();
        let mut i: usize = 0;
        while i < self.clients.len()
            invariant
                i <= self.clients@.len(),
                out@.len() == i,
                forall|k: int| 0 <= k < i ==> out@[k]@ == self.clients@[k]@,
                forall|k: int| 0 <= k < i ==> out@[k].mailbox() == self.clients@[k].mailbox(),
            decreases self.clients@.len() - i,
        {
            out.push(self.clients[i].duplicate());
            i += 1;
        }
        assert(out@.map_values(|c: Client| c@) =~= self@);
        assert(out@.map_values(|c: Client| c.mailbox()) =~= self.mailboxes());
        out
    }
}

/// The username recorded for `id`.
pub open spec fn name_of_entry(s: Seq<Entry>, id: PeerAddr) -> Option<Seq<char>> {
    s[index_of(s, id)].1
}


/// A connection opening or closing at an endpoint.
#[derive(Clone, Copy, Debug, PartialEq, Eq, Structural)]
pub enum ConnEvent {
    Connect(PeerAddr),
    Disconnect(PeerAddr),
}

/// The registry entries after `events`, starting from an empty registry, with
/// each connect registered and each disconnect removed.
pub open spec fn replay(events: Seq<ConnEvent>) -> Seq<Entry>
    decreases events.len(),
{
    if events.len() == 0 {
        Seq::empty()
    } else {
        let s = replay(events.drop_last());
        match events.last() {
            ConnEvent::Connect(a) => after_connect(s, a),
            ConnEvent::Disconnect(a) => after_disconnect(s, a),
        }
    }
}

/// The endpoints whose connection is open after `events`.
pub open spec fn open_after(events: Seq<ConnEvent>) -> Set<PeerAddr>
    decreases events.len(),
{
    if events.len() == 0 {
        Set::empty()
    } else {
        let o = open_after(events.drop_last());
        match events.last() {
            ConnEvent::Connect(a) => o.insert(a),
            ConnEvent::Disconnect(a) => o.remove(a),
        }
    }
}

/// Registering `a` keeps endpoints unique, adds `a`, and adds an entry only
/// where `a` was absent.
pub proof fn lemma_connect(s: Seq<Entry>, a: PeerAddr)
    requires
        ids_unique(s),
    ensures
        ids_unique(after_connect(s, a)),
        forall|b: PeerAddr| has_id(after_connect(s, a), b) <==> (has_id(s, b) || b == a),
        after_connect(s, a).len() == s.len() + if has_id(s, a) { 0int } else { 1int },
{
    let t = after_connect(s, a);
    if !has_id(s, a) {
        assert forall|b: PeerAddr| has_id(t, b) <==> (has_id(s, b) || b == a) by {
            if has_id(s, b) {
                let i = choose|i: int| 0 <= i < s.len() && s[i].0 == b;
                assert(t[i].0 == b);
            }
            if b == a {
                assert(t[s.len() as int].0 == b);
            }
            if has_id(t, b) && b != a {
                let i = choose|i: int| 0 <= i < t.len() && t[i].0 == b;
                assert(s[i].0 == b);
            }
        }
    }
}

/// Removing `a` keeps endpoints unique, takes out `a` alone, and removes an
/// entry only where `a` was present.
pub proof fn lemma_disconnect(s: Seq<Entry>, a: PeerAddr)
    requires
        ids_unique(s),
    ensures
        ids_unique(after_disconnect(s, a)),
        forall|b: PeerAddr| has_id(after_disconnect(s, a), b) <==> (has_id(s, b) && b != a),
        after_disconnect(s, a).len() == s.len() - if has_id(s, a) { 1int } else { 0int },
{
    let t = after_disconnect(s, a);
    if has_id(s, a) {
        let k = index_of(s, a);
        assert(0 <= k < s.len() && s[k].0 == a);
        assert forall|i: int| 0 <= i < t.len() implies t[i] == s[if i < k { i } else { i + 1 }] by {}
        assert forall|b: PeerAddr| has_id(t, b) <==> (has_id(s, b) && b != a) by {
            if has_id(s, b) && b != a {
                let i = choose|i: int| 0 <= i < s.len() && s[i].0 == b;
                assert(i != k);
                let j = if i < k { i } else { i - 1 };
                assert(t[j].0 == b);
            }
            if has_id(t, b) {
                let j = choose|j: int| 0 <= j < t.len() && t[j].0 == b;
                let i = if j < k { j } else { j + 1 };
                assert(s[i].0 == b);
                assert(i != k);
            }
        }
    }
}

/// Whatever connects and disconnects came, the registry holds one entry for
/// each connection that is open, and no other: its length is their number.
pub proof fn lemma_count_tracks_open_connections(events: Seq<ConnEvent>)
    ensures
        ids_unique(replay(events)),
        open_after(events).finite(),
        forall|b: PeerAddr| has_id(replay(events), b) <==> open_after(events).contains(b),
        replay(events).len() == open_after(events).len(),
    decreases events.len(),
{
    if events.len() > 0 {
        let prev = events.drop_last();
        lemma_count_tracks_open_connections(prev);
        let s = replay(prev);
        let o = open_after(prev);
        match events.last() {
            ConnEvent::Connect(a) => {
                lemma_connect(s, a);
                assert(has_id(s, a) == o.contains(a));
            },
            ConnEvent::Disconnect(a) => {
                lemma_disconnect(s, a);
                assert(has_id(s, a) == o.contains(a));
            },
        }
    }
}

/// Removing an endpoint twice is removing it once: the second removal finds
/// nothing and changes nothing.
pub proof fn lemma_remove_idempotent(s: Seq<Entry>, a: PeerAddr)
    requires
        ids_unique(s),
    ensures
        !has_id(after_disconnect(s, a), a),
        after_disconnect(after_disconnect(s, a), a) == after_disconnect(s, a),
{
    lemma_disconnect(s, a);
}

} // verus!
