use crate::client::{Client, PostOutcome};
use tokio::sync::mpsc::Sender;
use crate::peer::PeerAddr;
use crate::registry::{after_disconnect, has_id, ids_unique, lemma_disconnect, Entry};
use vstd::prelude::*;

verus! {

/// The entries of some connection records.
pub open spec fn entries(s: Seq<Client>) -> Seq<Entry> {
    s.map_values(|c: Client| c@)
}

/// The endpoints that a message from `from` goes to: every entry but the
/// sender's, in order.
pub open spec fn recipients(s: Seq<Entry>, from: PeerAddr) -> Seq<PeerAddr>
    decreases s.len(),
{
    if s.len() == 0 {
        Seq::empty()
    } else {
        let rest = recipients(s.drop_last(), from);
        if s.last().0 != from {
            rest.push(s.last().0)
        } else {
            rest
        }
    }
}

/// One attempt to hand a message to one peer: its endpoint, what became of
/// the attempt, and the mailbox and text that the attempt was made with.
pub struct Delivery {
    pub to: PeerAddr,
    pub outcome: PostOutcome,
    pub mailbox: Ghost<Sender<String>>,
    pub text: Ghost<Seq<char>>,
}

/// Every attempt in `d` carried `msg`, to the mailbox of a connection in
/// `peers` at the attempt's endpoint, which is not `from`.
pub open spec fn offers_to_peers(d: Seq<Delivery>, peers: Seq<Client>, from: PeerAddr, msg: Seq<char>) -> bool {
    forall|j: int|
        0 <= j < d.len() ==> {
            &&& (#[trigger] d[j]).text@ == msg
            &&& d[j].to != from
            &&& exists|i: int|
                0 <= i < peers.len() && peers[i]@.0 == d[j].to && peers[i].mailbox() == d[j].mailbox@
        }
}

/// The endpoints that some deliveries were attempted to.
pub open spec fn targets(d: Seq<Delivery>) -> Seq<PeerAddr> {
    d.map_values(|x: Delivery| x.to)
}

/// Offers `msg` to the mailbox of every connection in `peers` except the
/// one at `from`, in order and without waiting on any of them. A full or
/// closed mailbox only drops the message for that peer: every other peer is
/// still offered it, and the caller gets no error. The result says, for each
/// peer offered the message, what became of it.
pub fn send_message(peers: &Vec<Client>, from: PeerAddr, msg: &String) -> (r: Vec<Delivery>)
    ensures
        targets(r@) == recipients(entries(peers@), from),
        offers_to_peers(r@, peers@, from, msg@),
{
    let mut out: Vec<Delivery> = Vec::new();
    let mut i: usize = 0;
    while i < peers.len()
        invariant
            i <= peers@.len(),
            targets(out@) == recipients(entries(peers@).take(i as int), from),
            offers_to_peers(out@, peers@, from, msg@),
        decreases peers@.len() - i,
    {
        let ghost before = out@;
        assert(entries(peers@).take(i as int + 1).drop_last() =~= entries(peers@).take(i as int));
        assert(entries(peers@).take(i as int + 1).last() == peers@[i as int]@);
        if !peers[i].addr_eq(from) {
            let posting = peers[i].post(msg.clone());
            out.push(
                Delivery {
                    to: peers[i].get_addr(),
                    outcome: posting.outcome,
                    mailbox: posting.mailbox,
                    text: posting.text,
                },
            );
            assert(targets(out@) =~= targets(before).push(peers@[i as int]@.0));
            assert(offers_to_peers(out@, peers@, from, msg@)) by {
                assert forall|j: int| 0 <= j < out@.len() implies {
                    &&& (#[trigger] out@[j]).text@ == msg@
                    &&& out@[j].to != from
                    &&& exists|k: int|
                        0 <= k < peers@.len() && peers@[k]@.0 == out@[j].to && peers@[k].mailbox()
                            == out@[j].mailbox@
                } by {
                    if j < before.len() {
                        assert(out@[j] == before[j]);
                    } else {
                        assert(peers@[i as int]@.0 == out@[j].to);
                    }
                }
            }
        }
        i += 1;
    }
    assert(entries(peers@).take(peers@.len() as int) =~= entries(peers@));
    out
}

/// A message goes to exactly the registered endpoints other than its sender.
pub proof fn lemma_recipients_are_the_others(s: Seq<Entry>, from: PeerAddr)
    ensures
        forall|b: PeerAddr| #[trigger] recipients(s, from).contains(b) <==> (b != from && has_id(s, b)),
    decreases s.len(),
{
    if s.len() > 0 {
        let d = s.drop_last();
        lemma_recipients_are_the_others(d, from);
        let rest = recipients(d, from);
        assert(d =~= s.drop_last());
        assert(recipients(s, from) == if s.last().0 != from { rest.push(s.last().0) } else { rest });
        assert forall|b: PeerAddr| #[trigger] recipients(s, from).contains(b) <==> (b != from && has_id(s, b)) by {
            if has_id(d, b) {
                let i = choose|i: int| 0 <= i < d.len() && d[i].0 == b;
                assert(s[i].0 == b);
            }
            if has_id(s, b) && !has_id(d, b) {
                let i = choose|i: int| 0 <= i < s.len() && s[i].0 == b;
                if i < d.len() {
                    assert(d[i].0 == b);
                }
                assert(i == s.len() - 1);
            }
            if s.last().0 != from {
                let r = rest.push(s.last().0);
                if rest.contains(b) {
                    let i = choose|i: int| 0 <= i < rest.len() && rest[i] == b;
                    assert(r[i] == b);
                }
                if b == s.last().0 {
                    assert(r[rest.len() as int] == b);
                }
                if r.contains(b) {
                    let i = choose|i: int| 0 <= i < r.len() && r[i] == b;
                    if i < rest.len() {
                        assert(rest[i] == b);
                    }
                }
            }
        }
    } else {
        assert forall|b: PeerAddr| !recipients(s, from).contains(b) && !has_id(s, b) by {
            assert(recipients(s, from) =~= Seq::<PeerAddr>::empty());
        }
    }
}

/// A message is never offered to the mailbox of the connection it comes from.
pub proof fn lemma_sender_never_offered(s: Seq<Entry>, from: PeerAddr)
    ensures
        !recipients(s, from).contains(from),
{
    lemma_recipients_are_the_others(s, from);
}

/// Where endpoints are unique, each recipient is offered a message once.
pub proof fn lemma_recipients_once(s: Seq<Entry>, from: PeerAddr)
    requires
        ids_unique(s),
    ensures
        recipients(s, from).no_duplicates(),
    decreases s.len(),
{
    if s.len() > 0 {
        let d = s.drop_last();
        assert(ids_unique(d));
        lemma_recipients_once(d, from);
        lemma_recipients_are_the_others(d, from);
        if s.last().0 != from {
            assert(!has_id(d, s.last().0));
            let rest = recipients(d, from);
            let r = rest.push(s.last().0);
            assert forall|i: int, j: int| 0 <= i < r.len() && 0 <= j < r.len() && i != j implies r[i] != r[j] by {
                if i < rest.len() && j < rest.len() {
                    assert(rest[i] != rest[j]);
                } else if i < rest.len() {
                    assert(rest.contains(r[i]));
                } else {
                    assert(rest.contains(r[j]));
                }
            }
        }
    }
}

/// When a connection leaves, its leave notice, made from the entries as they
/// stood just before its removal, is offered once to every other connection
/// that stays registered and to no one else; and its endpoint is removed once,
/// so that a second removal changes nothing and no second notice is made.
pub proof fn lemma_leave_notice_reaches_each_other_peer_once(s: Seq<Entry>, leaving: PeerAddr)
    requires
        ids_unique(s),
    ensures
        recipients(s, leaving).no_duplicates(),
        forall|b: PeerAddr|
            recipients(s, leaving).contains(b) <==> has_id(after_disconnect(s, leaving), b),
        !has_id(after_disconnect(s, leaving), leaving),
        after_disconnect(after_disconnect(s, leaving), leaving) == after_disconnect(s, leaving),
{
    lemma_recipients_once(s, leaving);
    lemma_recipients_are_the_others(s, leaving);
    lemma_disconnect(s, leaving);
}

} // verus!
