//! The clients that are connected to a server.
use vstd::prelude::*;

verus! {

/// The address of a client: the parts of an internet socket address.
#[derive(Clone, Copy, Debug, PartialEq, Eq, Structural)]
pub enum PeerAddr {
    V4 { ip: u32, port: u16 },
    V6 { ip: u128, port: u16, flowinfo: u32, scope_id: u32 },
}

/// The connected clients: under each address, where to send what is meant for it.
pub struct PeerMap<T> {
    entries: Vec<(PeerAddr, T)>,
}

/// Whether no address occurs twice.
spec fn distinct<T>(entries: Seq<(PeerAddr, T)>) -> bool {
    forall|i: int, j: int|
        0 <= i < j < entries.len() ==> (#[trigger] entries[i]).0 != (#[trigger] entries[j]).0
}

/// Whether an address stands at a place among the entries.
spec fn stands_at<T>(entries: Seq<(PeerAddr, T)>, addr: PeerAddr, i: int) -> bool {
    0 <= i < entries.len() && entries[i].0 == addr
}

/// Whether an address stands among the first `n` entries.
spec fn among_first<T>(entries: Seq<(PeerAddr, T)>, addr: PeerAddr, n: int) -> bool {
    exists|k: int| 0 <= k < n && #[trigger] stands_at(entries, addr, k)
}

/// The entries as a map.
spec fn as_map<T>(entries: Seq<(PeerAddr, T)>) -> Map<PeerAddr, T> {
    Map::new(
        |addr: PeerAddr| exists|i: int| stands_at(entries, addr, i),
        |addr: PeerAddr| entries[choose|i: int| stands_at(entries, addr, i)].1,
    )
}

/// Each entry is found in the map.
proof fn lemma_entry<T>(entries: Seq<(PeerAddr, T)>, i: int)
    requires
        distinct(entries),
        0 <= i < entries.len(),
    ensures
        as_map(entries).contains_key(entries[i].0),
        as_map(entries)[entries[i].0] == entries[i].1,
{
    let addr = entries[i].0;
    assert(stands_at(entries, addr, i));
    let j = choose|j: int| stands_at(entries, addr, j);
    assert(stands_at(entries, addr, j));
    if i < j {
        assert(entries[i].0 != entries[j].0);
    }
    if j < i {
        assert(entries[j].0 != entries[i].0);
    }
}

/// What the map holds of an address, read off the entries.
proof fn lemma_lookup<T>(entries: Seq<(PeerAddr, T)>, addr: PeerAddr)
    requires
        distinct(entries),
    ensures
        as_map(entries).contains_key(addr) <==> exists|i: int| stands_at(entries, addr, i),
        forall|i: int| #[trigger]
            stands_at(entries, addr, i) ==> as_map(entries)[addr] == entries[i].1,
{
    assert forall|i: int| #[trigger] stands_at(entries, addr, i) implies as_map(entries)[addr]
        == entries[i].1 by {
        lemma_entry(entries, i);
    }
}

/// Taking an entry out takes its address out of the map.
proof fn lemma_remove<T>(entries: Seq<(PeerAddr, T)>, i: int)
    requires
        distinct(entries),
        0 <= i < entries.len(),
    ensures
        distinct(entries.remove(i)),
        as_map(entries.remove(i)) == as_map(entries).remove(entries[i].0),
{
    let rest = entries.remove(i);
    let addr = entries[i].0;
    let removed = as_map(entries).remove(addr);
    assert forall|j: int| 0 <= j < rest.len() implies (#[trigger] rest[j]) == entries[if j < i {
        j
    } else {
        j + 1
    }] by {}
    assert(distinct(rest));
    let result = as_map(rest);
    assert forall|a: PeerAddr|
        #![trigger result.dom().contains(a)]
        #![trigger removed.dom().contains(a)]
        result.dom().contains(a) == removed.dom().contains(a) && (result.dom().contains(a)
            ==> result[a] == removed[a]) by {
        lemma_lookup(entries, a);
        lemma_lookup(rest, a);
        if exists|j: int| stands_at(rest, a, j) {
            let j = choose|j: int| stands_at(rest, a, j);
            let j0 = if j < i { j } else { j + 1 };
            assert(rest[j] == entries[j0]);
            assert(stands_at(entries, a, j0));
            assert(a != addr) by {
                if i < j0 {
                    assert(entries[i].0 != entries[j0].0);
                } else {
                    assert(entries[j0].0 != entries[i].0);
                }
            }
        }
        if a != addr && exists|j: int| stands_at(entries, a, j) {
            let j0 = choose|j: int| stands_at(entries, a, j);
            let j = if j0 < i { j0 } else { j0 - 1 };
            assert(rest[j] == entries[j0]);
            assert(stands_at(rest, a, j));
        }
    }
    assert(result.dom() =~= removed.dom());
    assert(result =~= removed);
}

/// Adding an entry with a new address adds it to the map.
proof fn lemma_push<T>(entries: Seq<(PeerAddr, T)>, addr: PeerAddr, sender: T)
    requires
        distinct(entries),
        !as_map(entries).contains_key(addr),
    ensures
        distinct(entries.push((addr, sender))),
        as_map(entries.push((addr, sender))) == as_map(entries).insert(addr, sender),
{
    let more = entries.push((addr, sender));
    let inserted = as_map(entries).insert(addr, sender);
    assert forall|j: int, k: int| 0 <= j < k < more.len() implies (#[trigger] more[j]).0 != (
    #[trigger] more[k]).0 by {
        if k == entries.len() {
            lemma_entry(entries, j);
        }
    }
    let result = as_map(more);
    assert forall|a: PeerAddr|
        #![trigger result.dom().contains(a)]
        #![trigger inserted.dom().contains(a)]
        result.dom().contains(a) == inserted.dom().contains(a) && (result.dom().contains(a)
            ==> result[a] == inserted[a]) by {
        lemma_lookup(entries, a);
        lemma_lookup(more, a);
        assert(stands_at(more, addr, entries.len() as int));
        if exists|j: int| stands_at(more, a, j) {
            let j = choose|j: int| stands_at(more, a, j);
            if j < entries.len() {
                assert(stands_at(entries, a, j));
            }
        }
        if exists|j: int| stands_at(entries, a, j) {
            let j = choose|j: int| stands_at(entries, a, j);
            assert(stands_at(more, a, j));
        }
    }
    assert(result.dom() =~= inserted.dom());
    assert(result =~= inserted);
}

/// The clients that a message from `from` is for: all but the one that sent it.
pub open spec fn audience<T>(peers: Map<PeerAddr, T>, from: PeerAddr) -> Set<PeerAddr> {
    peers.dom().remove(from)
}

/// Whether `senders` has the sender of each address in `addrs`, in that order.
pub open spec fn senders_of<T>(
    peers: Map<PeerAddr, T>,
    addrs: Seq<PeerAddr>,
    senders: Seq<&T>,
) -> bool {
    senders.len() == addrs.len() && forall|i: int|
        0 <= i < addrs.len() ==> *(#[trigger] senders[i]) == peers[addrs[i]]
}

/// Whether `senders` has the sender of each client that a message from `from` is for,
/// once each, in some order.
pub open spec fn reaches<T>(peers: Map<PeerAddr, T>, from: PeerAddr, senders: Seq<&T>) -> bool {
    exists|addrs: Seq<PeerAddr>|
        #![trigger senders_of(peers, addrs, senders)]
        addrs.no_duplicates() && addrs.to_set() == audience(peers, from) && senders_of(
            peers,
            addrs,
            senders,
        )
}

/// What happens on the connection of a client.
pub enum ConnectionEvent<T> {
    /// It was opened; this is where to send what is meant for the client.
    Opened(T),
    /// A message came from the client.
    Message,
    /// It was closed.
    Closed,
}

/// The connected clients after an event on the connection of the client at `addr`.
pub open spec fn peers_after<T>(
    peers: Map<PeerAddr, T>,
    addr: PeerAddr,
    event: ConnectionEvent<T>,
) -> Map<PeerAddr, T> {
    match event {
        ConnectionEvent::Opened(sender) => peers.insert(addr, sender),
        ConnectionEvent::Message => peers,
        ConnectionEvent::Closed => peers.remove(addr),
    }
}

/// The connected clients after events on any connections, each with the address of its
/// client, the first event first.
pub open spec fn peers_after_all<T>(
    peers: Map<PeerAddr, T>,
    events: Seq<(PeerAddr, ConnectionEvent<T>)>,
) -> Map<PeerAddr, T>
    decreases events.len(),
{
    if events.len() == 0 {
        peers
    } else {
        peers_after(
            peers_after_all(peers, events.drop_last()),
            events.last().0,
            events.last().1,
        )
    }
}

/// Whether the connection of the client at `addr` is neither opened anew nor closed.
pub open spec fn leaves_alone<T>(addr: PeerAddr, event: (PeerAddr, ConnectionEvent<T>)) -> bool {
    event.0 != addr || event.1 is Message
}

/// What happens on other connections, and a message from any client, leaves a client
/// as it is: connected with the same sender, or not connected.
pub proof fn law_others_change_nothing<T>(
    peers: Map<PeerAddr, T>,
    addr: PeerAddr,
    other: PeerAddr,
    event: ConnectionEvent<T>,
)
    requires
        leaves_alone(addr, (other, event)),
    ensures
        peers_after(peers, other, event).contains_key(addr) <==> peers.contains_key(addr),
        peers.contains_key(addr) ==> peers_after(peers, other, event)[addr] == peers[addr],
{
}

/// From the opening of its connection to its close a client stays connected with the
/// same sender, whatever happens on other connections, and a message from any other
/// client is for it.
pub proof fn law_client_stays_until_it_leaves<T>(
    peers: Map<PeerAddr, T>,
    addr: PeerAddr,
    sender: T,
    events: Seq<(PeerAddr, ConnectionEvent<T>)>,
)
    requires
        forall|i: int| 0 <= i < events.len() ==> leaves_alone(addr, #[trigger] events[i]),
    ensures
        ({
            let opened = peers_after(peers, addr, ConnectionEvent::Opened(sender));
            let later = peers_after_all(opened, events);
            &&& later.contains_key(addr)
            &&& later[addr] == sender
            &&& forall|from: PeerAddr|
                from != addr ==> #[trigger] audience(later, from).contains(addr)
        }),
    decreases events.len(),
{
    if events.len() > 0 {
        let before = events.drop_last();
        assert forall|i: int| 0 <= i < before.len() implies leaves_alone(
            addr,
            #[trigger] before[i],
        ) by {
            assert(before[i] == events[i]);
        }
        law_client_stays_until_it_leaves(peers, addr, sender, before);
        let opened = peers_after(peers, addr, ConnectionEvent::Opened(sender));
        assert(leaves_alone(addr, events[events.len() - 1]));
        law_others_change_nothing(
            peers_after_all(opened, before),
            addr,
            events.last().0,
            events.last().1,
        );
    }
}

/// A message is for every client that is connected but the one that sent it, so for one
/// that just connected, and for none that just left.
pub proof fn law_message_is_for_all_others<T>(
    peers: Map<PeerAddr, T>,
    from: PeerAddr,
    other: PeerAddr,
    sender: T,
)
    ensures
        !audience(peers, from).contains(from),
        other != from ==> (audience(peers, from).contains(other) <==> peers.contains_key(other)),
        other != from ==> audience(
            peers_after(peers, other, ConnectionEvent::Opened(sender)),
            from,
        ).contains(other),
        !audience(peers_after(peers, other, ConnectionEvent::Closed), from).contains(other),
{
}

/// A client that connects and leaves again changes nothing for the others.
pub proof fn law_leaving_undoes_connecting<T>(peers: Map<PeerAddr, T>, addr: PeerAddr, sender: T)
    requires
        !peers.contains_key(addr),
    ensures
        peers_after(
            peers_after(peers, addr, ConnectionEvent::Opened(sender)),
            addr,
            ConnectionEvent::Closed,
        ) == peers,
{
    assert(peers.insert(addr, sender).remove(addr) =~= peers);
}

impl<T> View for PeerMap<T> {
    type V = Map<PeerAddr, T>;

    closed spec fn view(&self) -> Map<PeerAddr, T> {
        as_map(self.entries@)
    }
}

/// Takes the entry of an address out.
fn remove_entry<T>(entries: &mut Vec<(PeerAddr, T)>, addr: PeerAddr)
    requires
        distinct(old(entries)@),
    ensures
        distinct(final(entries)@),
        as_map(final(entries)@) == as_map(old(entries)@).remove(addr),
{
    let mut i: usize = 0;
    while i < entries.len()
        invariant
            i <= entries@.len(),
            entries@ == old(entries)@,
            distinct(entries@),
            forall|k: int| 0 <= k < i ==> (#[trigger] entries@[k]).0 != addr,
        decreases entries@.len() - i,
    {
        if entries[i].0 == addr {
            proof {
                lemma_remove(entries@, i as int);
            }
            let _ = entries.remove(i);
            return ;
        }
        i = i + 1;
    }
    proof {
        assert(as_map(entries@) =~= as_map(entries@).remove(addr));
    }
}

impl<T> PeerMap<T> {
    /// No address is kept twice.
    #[verifier::type_invariant]
    spec fn wf(self) -> bool {
        distinct(self.entries@)
    }

    /// No client.
    pub fn new() -> (peers: PeerMap<T>)
        ensures
            peers@ == Map::<PeerAddr, T>::empty(),
    {
        let peers = PeerMap { entries: Vec::new() };
        proof {
            assert(peers@ =~= Map::<PeerAddr, T>::empty());
        }
        peers
    }

    /// Takes out a client that has left.
    pub fn remove(&mut self, addr: PeerAddr)
        ensures
            final(self)@ == old(self)@.remove(addr),
    {
        proof {
            use_type_invariant(&*self);
        }
        let mut entries: Vec<(PeerAddr, T)> = Vec::new();
        std::mem::swap(&mut entries, &mut self.entries);
        remove_entry(&mut entries, addr);
        self.entries = entries;
    }

    /// Takes in a client that has connected, in place of one with the same address.
    pub fn insert(&mut self, addr: PeerAddr, sender: T)
        ensures
            final(self)@ == old(self)@.insert(addr, sender),
    {
        proof {
            use_type_invariant(&*self);
        }
        let mut entries: Vec<(PeerAddr, T)> = Vec::new();
        std::mem::swap(&mut entries, &mut self.entries);
        remove_entry(&mut entries, addr);
        proof {
            lemma_push(entries@, addr, sender);
            assert(as_map(entries@).insert(addr, sender) =~= old(self)@.insert(addr, sender));
        }
        entries.push((addr, sender));
        self.entries = entries;
    }

    /// Where to send a message that came from `from`.
    pub fn recipients(&self, from: PeerAddr) -> (senders: Vec<&T>)
        ensures
            reaches(self@, from, senders@),
    {
        proof {
            use_type_invariant(self);
        }
        let mut senders: Vec<&T> = Vec::new();
        let ghost mut addrs: Seq<PeerAddr> = Seq::empty();
        let mut i: usize = 0;
        while i < self.entries.len()
            invariant
                i <= self.entries@.len(),
                distinct(self.entries@),
                self@ == as_map(self.entries@),
                addrs.no_duplicates(),
                forall|a: PeerAddr| #[trigger]
                    addrs.contains(a) <==> a != from && among_first(self.entries@, a, i as int),
                senders_of(self@, addrs, senders@),
            decreases self.entries@.len() - i,
        {
            let ghost before = addrs;
            proof {
                lemma_entry(self.entries@, i as int);
            }
            if self.entries[i].0 != from {
                senders.push(&self.entries[i].1);
                proof {
                    addrs = addrs.push(self.entries@[i as int].0);
                }
            }
            proof {
                let addr = self.entries@[i as int].0;
                assert(!among_first(self.entries@, addr, i as int));
                assert(!before.contains(addr));
                assert forall|a: PeerAddr| #[trigger]
                    addrs.contains(a) <==> a != from && among_first(
                        self.entries@,
                        a,
                        i + 1,
                    ) by {
                    assert(stands_at(self.entries@, addr, i as int));
                    assert(among_first(self.entries@, a, i + 1) <==> a == addr || among_first(
                        self.entries@,
                        a,
                        i as int,
                    ));
                    if before.contains(a) {
                        let m = choose|m: int| 0 <= m < before.len() && before[m] == a;
                        assert(addrs[m] == a);
                    }
                    if addr != from {
                        assert(addrs[before.len() as int] == addr);
                    }
                }
            }
            i = i + 1;
        }
        proof {
            assert forall|a: PeerAddr| audience(self@, from).contains(a) implies addrs.contains(
                a,
            ) by {
                let k = choose|k: int| stands_at(self.entries@, a, k);
                assert(stands_at(self.entries@, a, k));
                assert(among_first(self.entries@, a, i as int));
            }
            assert(addrs.to_set() =~= audience(self@, from));
            assert(senders_of(self@, addrs, senders@));
        }
        senders
    }
}

/// Goes on after an event on the connection of the client at `addr`. The result says
/// where to send the message that came: to all other clients.
pub fn handle_connection<'a, T>(
    peers: &'a mut PeerMap<T>,
    addr: PeerAddr,
    event: ConnectionEvent<T>,
) -> (senders: Vec<&'a T>)
    ensures
        final(peers)@ == peers_after(old(peers)@, addr, event),
        event is Message ==> reaches(old(peers)@, addr, senders@),
        !(event is Message) ==> senders@.len() == 0,
{
    match event {
        ConnectionEvent::Opened(sender) => {
            peers.insert(addr, sender);
            Vec::new()
        },
        ConnectionEvent::Message => peers.recipients(addr),
        ConnectionEvent::Closed => {
            peers.remove(addr);
            Vec::new()
        },
    }
}

/// A client whose connection opens is connected, with its own sender; one whose connection
/// closes is not. No one else is touched, and a message touches no one.
pub proof fn law_events_touch_one_client<T>(
    peers: Map<PeerAddr, T>,
    addr: PeerAddr,
    sender: T,
    other: PeerAddr,
)
    requires
        other != addr,
    ensures
        peers_after(peers, addr, ConnectionEvent::Opened(sender)).contains_key(addr),
        peers_after(peers, addr, ConnectionEvent::Opened(sender))[addr] == sender,
        peers_after(peers, addr, ConnectionEvent::Opened(sender)).remove(other) == peers.remove(
            other,
        ).insert(addr, sender),
        peers_after(peers, addr, ConnectionEvent::Opened(sender)).contains_key(other)
            <==> peers.contains_key(other),
        peers.contains_key(other) ==> peers_after(peers, addr, ConnectionEvent::Opened(sender))[other]
            == peers[other],
        !peers_after(peers, addr, ConnectionEvent::Closed).contains_key(addr),
        peers_after(peers, addr, ConnectionEvent::Closed).contains_key(other)
            <==> peers.contains_key(other),
        peers.contains_key(other) ==> peers_after(peers, addr, ConnectionEvent::Closed)[other]
            == peers[other],
        peers_after(peers, addr, ConnectionEvent::Message) == peers,
{
    assert(peers_after(peers, addr, ConnectionEvent::Opened(sender)).remove(other)
        =~= peers.remove(other).insert(addr, sender));
}

/// Whether `sender` is that of the client at `addr`.
pub open spec fn is_sender_of<T>(peers: Map<PeerAddr, T>, addr: PeerAddr, sender: &T) -> bool {
    peers.contains_key(addr) && peers[addr] == *sender
}

/// Whether `sender` is that of some client other than the one at `from`.
pub open spec fn is_sender_of_another<T>(
    peers: Map<PeerAddr, T>,
    from: PeerAddr,
    sender: &T,
) -> bool {
    exists|addr: PeerAddr| addr != from && #[trigger] is_sender_of(peers, addr, sender)
}

/// A message goes to as many senders as there are other clients; each sender is that of
/// another client, and each other client has its sender there.
pub proof fn law_message_reaches_each_other_client<T>(
    peers: Map<PeerAddr, T>,
    from: PeerAddr,
    senders: Seq<&T>,
)
    requires
        reaches(peers, from, senders),
    ensures
        senders.len() == peers.dom().remove(from).len(),
        forall|i: int|
            0 <= i < senders.len() ==> is_sender_of_another(peers, from, #[trigger] senders[i]),
        forall|addr: PeerAddr| #[trigger]
            peers.contains_key(addr) && addr != from ==> exists|i: int|
                0 <= i < senders.len() && is_sender_of(peers, addr, #[trigger] senders[i]),
{
    let addrs = choose|addrs: Seq<PeerAddr>|
        #![trigger senders_of(peers, addrs, senders)]
        addrs.no_duplicates() && addrs.to_set() == audience(peers, from) && senders_of(
            peers,
            addrs,
            senders,
        );
    addrs.unique_seq_to_set();
    assert forall|i: int| 0 <= i < senders.len() implies is_sender_of_another(
        peers,
        from,
        #[trigger] senders[i],
    ) by {
        let addr = addrs[i];
        assert(addrs.to_set().contains(addr));
        assert(audience(peers, from).contains(addr));
        assert(is_sender_of(peers, addr, senders[i]));
    }
    assert forall|addr: PeerAddr| #[trigger]
        peers.contains_key(addr) && addr != from implies exists|i: int|
        0 <= i < senders.len() && is_sender_of(peers, addr, #[trigger] senders[i]) by {
        assert(audience(peers, from).contains(addr));
        assert(addrs.to_set().contains(addr));
        let i = choose|i: int| 0 <= i < addrs.len() && addrs[i] == addr;
        assert(is_sender_of(peers, addr, senders[i]));
    }
}

} // verus!
