//! The receiving side of a connection.
//!
//! Each unidirectional stream the peer opens is routed by the header of its
//! first packet: reliable ordered streams stay open and are read again on
//! every poll; reliable unordered and reliable sequenced streams deliver
//! that one packet; everything else is ignored. Delivered packets wait in a
//! first-in, first-out queue of events.
use crate::delivery_guarantees::{DeliveryGuarantee, OrderingGuarantee};
use crate::streams::{
    channel_header, decode_header, lemma_packet_read_of_write, packet_bytes, Header, Packet,
    SendChannel,
};
use std::collections::VecDeque;
use vstd::prelude::*;

verus! {

/// Something that happened on a connection.
pub enum GameEvent {
    /// A packet arrived.
    Packet(Packet),
}

impl View for GameEvent {
    type V = (Header, Seq<u8>);

    open spec fn view(&self) -> (Header, Seq<u8>) {
        match self {
            GameEvent::Packet(p) => p@,
        }
    }
}

/// What becomes of a newly opened incoming stream, once its first packet has
/// been read.
#[derive(Copy, Clone, Debug, PartialEq, Eq, Structural)]
pub enum StreamRoute {
    /// Deliver the packet and keep the stream, to read it again later.
    KeepOpen,
    /// Deliver the packet; the stream is not read again.
    Deliver,
    /// Drop the packet and the stream.
    Ignore,
}

/// The route of a stream whose first packet carries header `h`.
pub open spec fn route_of(h: Header) -> StreamRoute {
    match (h.delivery_guarantee, h.ordering_guarantee) {
        (DeliveryGuarantee::Reliable, OrderingGuarantee::Ordered(None)) => StreamRoute::KeepOpen,
        (DeliveryGuarantee::Reliable, OrderingGuarantee::Unordered) => StreamRoute::Deliver,
        (DeliveryGuarantee::Reliable, OrderingGuarantee::Sequenced(None)) => StreamRoute::Deliver,
        _ => StreamRoute::Ignore,
    }
}

/// Decides the route of a stream from the header of its first packet.
pub fn route(header: &Header) -> (r: StreamRoute)
    ensures
        r == route_of(*header),
{
    match (header.delivery_guarantee, header.ordering_guarantee) {
        (DeliveryGuarantee::Reliable, OrderingGuarantee::Ordered(None)) => StreamRoute::KeepOpen,
        (DeliveryGuarantee::Reliable, OrderingGuarantee::Unordered) => StreamRoute::Deliver,
        (DeliveryGuarantee::Reliable, OrderingGuarantee::Sequenced(None)) => StreamRoute::Deliver,
        _ => StreamRoute::Ignore,
    }
}

/// No stream id occurs twice among `entries`.
pub open spec fn ids_unique<S>(entries: Seq<(u64, S)>) -> bool {
    forall|i: int, j: int|
        0 <= i < j < entries.len() ==> #[trigger] entries[i].0 != #[trigger] entries[j].0
}

/// Whether `id` occurs among `entries`.
pub open spec fn has_id<S>(entries: Seq<(u64, S)>, id: u64) -> bool {
    exists|i: int| 0 <= i < entries.len() && #[trigger] entries[i].0 == id
}

/// The position of `id` among `entries`, where it occurs.
pub open spec fn position_of<S>(entries: Seq<(u64, S)>, id: u64) -> int {
    choose|i: int| 0 <= i < entries.len() && #[trigger] entries[i].0 == id
}

/// The streams of `entries` as a map from stream id to stream.
pub open spec fn entries_map<S>(entries: Seq<(u64, S)>) -> Map<u64, S> {
    Map::new(|id: u64| has_id(entries, id), |id: u64| entries[position_of(entries, id)].1)
}

/// `entries` with `stream` stored under `id`: in place of the entry with
/// that id if there is one, else appended.
pub open spec fn store_entry<S>(entries: Seq<(u64, S)>, id: u64, stream: S) -> Seq<(u64, S)> {
    if has_id(entries, id) {
        entries.update(position_of(entries, id), (id, stream))
    } else {
        entries.push((id, stream))
    }
}

/// The events of a connection and the reliable ordered streams it keeps
/// open, each under its stream id. `S` is the type of a stream handle.
///
/// Besides the queue itself, the inbox records every packet ever queued and
/// every event taken, so that its invariant can say that each queued packet
/// is taken once, in the order it was queued, or is still waiting.
pub struct ConnectionInbox<S> {
    events: VecDeque<GameEvent>,
    stream_ids: Vec<u64>,
    stream_handles: Vec<S>,
    queued: Ghost<Seq<(Header, Seq<u8>)>>,
    taken: Ghost<Seq<(Header, Seq<u8>)>>,
}

impl<S> ConnectionInbox<S> {
    /// The packets waiting to be taken, oldest first.
    pub closed spec fn pending(&self) -> Seq<(Header, Seq<u8>)> {
        self.events@.map_values(|e: GameEvent| e@)
    }

    /// Every packet queued since the inbox was made, in order.
    pub closed spec fn queued(&self) -> Seq<(Header, Seq<u8>)> {
        self.queued@
    }

    /// Every event taken since the inbox was made, in order.
    pub closed spec fn taken(&self) -> Seq<(Header, Seq<u8>)> {
        self.taken@
    }

    /// The streams kept open, with their ids, in the order they were kept.
    pub closed spec fn entries(&self) -> Seq<(u64, S)> {
        Seq::new(
            self.stream_ids@.len(),
            |k: int| (self.stream_ids@[k], self.stream_handles@[k]),
        )
    }

    /// The streams kept open, by id.
    pub open spec fn streams(&self) -> Map<u64, S> {
        entries_map(self.entries())
    }

    /// What holds of an inbox at all times: no stream id is kept twice, and
    /// the events taken followed by those waiting are exactly the packets
    /// queued, in order.
    pub open spec fn consistent(&self) -> bool {
        &&& ids_unique(self.entries())
        &&& self.taken() + self.pending() == self.queued()
    }

    #[verifier::type_invariant]
    closed spec fn inv(self) -> bool {
        &&& self.stream_ids@.len() == self.stream_handles@.len()
        &&& forall|i: int, j: int|
            0 <= i < j < self.stream_ids@.len() ==> #[trigger] self.stream_ids@[i]
                != #[trigger] self.stream_ids@[j]
        &&& self.taken@ + self.pending() == self.queued@
    }

    /// An inbox with no events and no streams.
    pub fn new() -> (inbox: Self)
        ensures
            inbox.consistent(),
            inbox.pending() == Seq::<(Header, Seq<u8>)>::empty(),
            inbox.queued() == Seq::<(Header, Seq<u8>)>::empty(),
            inbox.taken() == Seq::<(Header, Seq<u8>)>::empty(),
            inbox.entries() == Seq::<(u64, S)>::empty(),
    {
        let events: VecDeque<GameEvent> = VecDeque::new();
        assert(events@.map_values(|e: GameEvent| e@) =~= Seq::<(Header, Seq<u8>)>::empty());
        ConnectionInbox {
            events,
            stream_ids: Vec::new(),
            stream_handles: Vec::new(),
            queued: Ghost(Seq::empty()),
            taken: Ghost(Seq::empty()),
        }
    }

    /// Queues `packet` as an event.
    pub fn push_event(&mut self, packet: Packet)
        ensures
            final(self).consistent(),
            final(self).pending() == old(self).pending().push(packet@),
            final(self).queued() == old(self).queued().push(packet@),
            final(self).taken() == old(self).taken(),
            final(self).entries() == old(self).entries(),
    {
        proof {
            use_type_invariant(&*self);
        }
        let ghost view = packet@;
        let ConnectionInbox { mut events, stream_ids, stream_handles, queued, taken } = self.take();
        events.push_back(GameEvent::Packet(packet));
        assert(events@.map_values(|e: GameEvent| e@) =~= old(self).pending().push(view));
        assert(old(self).taken() + old(self).pending().push(view) =~= old(self).queued().push(
            view,
        ));
        *self = ConnectionInbox {
            events,
            stream_ids,
            stream_handles,
            queued: Ghost(queued@.push(view)),
            taken,
        };
    }

    /// Takes the oldest waiting event, if there is one.
    pub fn next_event(&mut self) -> (event: Option<GameEvent>)
        ensures
            final(self).consistent(),
            final(self).entries() == old(self).entries(),
            final(self).queued() == old(self).queued(),
            old(self).pending().len() == 0 ==> event is None && final(self).pending()
                == old(self).pending() && final(self).taken() == old(self).taken(),
            old(self).pending().len() > 0 ==> event is Some && event->Some_0@ == old(
                self,
            ).pending()[0] && final(self).pending() == old(self).pending().drop_first()
                && final(self).taken() == old(self).taken().push(event->Some_0@),
    {
        proof {
            use_type_invariant(&*self);
        }
        let ConnectionInbox { mut events, stream_ids, stream_handles, queued, taken } = self.take();
        let event = events.pop_front();
        let ghost new_taken = if event is Some {
            taken@.push(event->Some_0@)
        } else {
            taken@
        };
        assert(events@.map_values(|e: GameEvent| e@) =~= match event {
            Some(_) => old(self).pending().drop_first(),
            None => old(self).pending(),
        });
        proof {
            if old(self).pending().len() > 0 {
                assert(new_taken + old(self).pending().drop_first() =~= old(self).taken()
                    + old(self).pending());
            }
        }
        *self = ConnectionInbox {
            events,
            stream_ids,
            stream_handles,
            queued,
            taken: Ghost(new_taken),
        };
        event
    }

    /// Handles the first packet of a newly opened stream `stream` with id
    /// `id`, as `route` decides: the packet is queued unless the route is
    /// `Ignore`, and the stream is kept under its id when the route is
    /// `KeepOpen` (replacing a stream kept under the same id); otherwise
    /// the stream is dropped.
    pub fn accept_stream(&mut self, id: u64, stream: S, packet: Packet)
        ensures
            final(self).consistent(),
            final(self).taken() == old(self).taken(),
            route_of(packet.header) == StreamRoute::Ignore ==> final(self).pending() == old(
                self,
            ).pending() && final(self).queued() == old(self).queued(),
            route_of(packet.header) != StreamRoute::Ignore ==> final(self).pending() == old(
                self,
            ).pending().push(packet@) && final(self).queued() == old(self).queued().push(
                packet@,
            ),
            route_of(packet.header) == StreamRoute::KeepOpen ==> final(self).entries()
                == store_entry(old(self).entries(), id, stream),
            route_of(packet.header) == StreamRoute::KeepOpen ==> final(self).streams() == old(
                self,
            ).streams().insert(id, stream),
            route_of(packet.header) != StreamRoute::KeepOpen ==> final(self).entries() == old(
                self,
            ).entries(),
    {
        proof {
            use_type_invariant(&*self);
        }
        match route(&packet.header) {
            StreamRoute::KeepOpen => {
                proof {
                    lemma_store_entry(self.entries(), id, stream);
                }
                self.push_event(packet);
                self.keep_stream(id, stream);
            },
            StreamRoute::Deliver => {
                self.push_event(packet);
            },
            StreamRoute::Ignore => {},
        }
    }

    /// Stores `stream` under `id`, in place of a stream kept under the same id.
    fn keep_stream(&mut self, id: u64, stream: S)
        ensures
            final(self).consistent(),
            final(self).entries() == store_entry(old(self).entries(), id, stream),
            final(self).pending() == old(self).pending(),
            final(self).queued() == old(self).queued(),
            final(self).taken() == old(self).taken(),
    {
        proof {
            use_type_invariant(&*self);
            lemma_store_entry(self.entries(), id, stream);
        }
        let ConnectionInbox { events, mut stream_ids, mut stream_handles, queued, taken } =
            self.take();
        let ghost start = old(self).entries();
        let mut i: usize = 0;
        while i < stream_ids.len()
            invariant
                stream_ids@.len() == start.len(),
                forall|k: int| 0 <= k < start.len() ==> #[trigger] stream_ids@[k] == start[k].0,
                ids_unique(start),
                0 <= i <= start.len(),
                forall|k: int| 0 <= k < i ==> #[trigger] start[k].0 != id,
            ensures
                0 <= i <= start.len(),
                i < start.len() ==> start[i as int].0 == id,
                i == start.len() ==> !has_id(start, id),
            decreases start.len() - i,
        {
            if stream_ids[i] == id {
                break;
            }
            i = i + 1;
        }
        if i < stream_ids.len() {
            assert(has_id(start, id));
            assert(position_of(start, id) == i as int);
            stream_handles[i] = stream;
        } else {
            stream_ids.push(id);
            stream_handles.push(stream);
        }
        let inbox = ConnectionInbox { events, stream_ids, stream_handles, queued, taken };
        assert(inbox.entries() =~= store_entry(start, id, stream));
        *self = inbox;
    }

    /// Moves the whole inbox out of `self`, leaving an empty one behind.
    fn take(&mut self) -> (inbox: Self)
        ensures
            inbox == *old(self),
            inbox.consistent(),
    {
        proof {
            use_type_invariant(&*self);
        }
        let mut inbox = ConnectionInbox::new();
        std::mem::swap(self, &mut inbox);
        inbox
    }

    /// The number of streams kept open.
    pub fn reliable_stream_count(&self) -> (n: usize)
        ensures
            n == self.entries().len(),
    {
        proof {
            use_type_invariant(self);
        }
        self.stream_ids.len()
    }

    /// The stream kept at position `i`, to be read; its id stays as it is.
    pub fn reliable_stream_mut(&mut self, i: usize) -> (stream: &mut S)
        requires
            i < old(self).entries().len(),
        ensures
            *stream == old(self).entries()[i as int].1,
            final(self).entries() == old(self).entries().update(
                i as int,
                (old(self).entries()[i as int].0, *final(stream)),
            ),
            final(self).consistent(),
            final(self).pending() == old(self).pending(),
            final(self).queued() == old(self).queued(),
            final(self).taken() == old(self).taken(),
    {
        proof {
            use_type_invariant(&*self);
        }
        &mut self.stream_handles[i]
    }
}

/// Only reliable packets are delivered.
pub proof fn lemma_route_reliable_only(h: Header)
    ensures
        route_of(h) != StreamRoute::Ignore ==> h.delivery_guarantee == DeliveryGuarantee::Reliable,
        route_of(h) == StreamRoute::KeepOpen <==> h == channel_header(SendChannel::Reliable),
{
}

/// What each kind of sender's frame comes to on the receiving side: the
/// reliable sender's stream is kept open, the unordered and sequenced
/// senders' packets are delivered once. (A frame with a payload shorter than
/// two bytes cannot be read at all.)
pub proof fn lemma_channel_route(c: SendChannel, payload: Seq<u8>)
    requires
        payload.len() >= 2,
    ensures
        route_of(decode_header(packet_bytes(channel_header(c), payload))) == (match c {
            SendChannel::Reliable => StreamRoute::KeepOpen,
            _ => StreamRoute::Deliver,
        }),
{
    lemma_packet_read_of_write(channel_header(c), payload);
}

/// Storing a stream under an id keeps ids unique, and changes the map of
/// streams by exactly that one entry.
pub proof fn lemma_store_entry<S>(entries: Seq<(u64, S)>, id: u64, stream: S)
    requires
        ids_unique(entries),
    ensures
        ids_unique(store_entry(entries, id, stream)),
        entries_map(store_entry(entries, id, stream)) == entries_map(entries).insert(id, stream),
{
    let after = store_entry(entries, id, stream);
    if has_id(entries, id) {
        let p = position_of(entries, id);
        assert forall|k: int| 0 <= k < entries.len() && #[trigger] entries[k].0 == id implies k
            == p by {}
        assert forall|k: int| 0 <= k < after.len() implies #[trigger] after[k].0 == entries[k].0 by {}
        assert forall|x: u64| has_id(after, x) == has_id(entries, x) by {
            if has_id(entries, x) {
                let q = position_of(entries, x);
                assert(after[q].0 == x);
            }
            if has_id(after, x) {
                let q = position_of(after, x);
                assert(entries[q].0 == x);
            }
        }
        assert forall|x: u64| has_id(after, x) && x != id implies after[position_of(after, x)]
            == entries[position_of(entries, x)] by {
            let qa = position_of(after, x);
            let qe = position_of(entries, x);
            assert(entries[qa].0 == x);
        }
    } else {
        assert forall|x: u64| has_id(after, x) == (has_id(entries, x) || x == id) by {
            if has_id(entries, x) {
                let q = position_of(entries, x);
                assert(after[q].0 == x);
            }
            if x == id {
                assert(after[entries.len() as int].0 == x);
            }
        }
        assert forall|x: u64| has_id(after, x) && x != id implies after[position_of(after, x)]
            == entries[position_of(entries, x)] by {
            let qa = position_of(after, x);
            let qe = position_of(entries, x);
            assert(entries[qa].0 == x);
        }
        assert forall|x: u64| x == id implies after[position_of(after, x)] == (id, stream) by {
            let qa = position_of(after, x);
            if qa < entries.len() {
                assert(entries[qa].0 == id);
            }
        }
    }
    assert(entries_map(after) =~= entries_map(entries).insert(id, stream));
}

} // verus!
