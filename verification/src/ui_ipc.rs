//! Events for the user interface: their numbers, and the place from which they are published.
use vstd::prelude::*;

use crate::json::Json;

verus! {

/// An event for the user interface.
pub struct UiEventEnvelope {
    pub v: u8,
    pub seq: u64,
    pub at_ms: u64,
    pub event_type: String,
    pub payload: Json,
}

/// Whether `e` is the event that is published with these contents after the one with the number
/// `last`.
pub open spec fn is_next(
    e: UiEventEnvelope,
    last: u64,
    event_type: Seq<char>,
    payload: Json,
    now_ms: u64,
) -> bool {
    &&& e.v == 1
    &&& e.seq == last + 1
    &&& e.at_ms == now_ms
    &&& e.event_type@ == event_type
    &&& e.payload == payload
}

/// What publishes events: it numbers them.
#[derive(Debug)]
pub struct UiEventPublisher {
    seq: u64,
}

impl UiEventPublisher {
    /// The number of the last event.
    pub closed spec fn last(self) -> u64 {
        self.seq
    }

    /// What has published nothing yet.
    pub fn new() -> (p: UiEventPublisher)
        ensures
            p.last() == 0,
    {
        UiEventPublisher { seq: 0 }
    }

    /// The event with the next number.
    pub fn emit(&mut self, event_type: &str, payload: Json, now_ms: u64) -> (e: UiEventEnvelope)
        requires
            old(self).last() < u64::MAX,
        ensures
            final(self).last() == old(self).last() + 1,
            is_next(e, old(self).last(), event_type@, payload, now_ms),
    {
        self.seq = self.seq + 1;
        UiEventEnvelope {
            v: 1,
            seq: self.seq,
            at_ms: now_ms,
            event_type: event_type.to_string(),
            payload,
        }
    }
}

/// The place from which events are published, where anything is installed.
#[derive(Debug)]
pub struct PublisherSlot {
    publisher: Option<UiEventPublisher>,
}

impl Default for PublisherSlot {
    fn default() -> (r: Self)
        ensures
            r.installed() is None,
    {
        PublisherSlot { publisher: None }
    }
}

impl PublisherSlot {
    /// What is installed.
    pub closed spec fn installed(self) -> Option<UiEventPublisher> {
        self.publisher
    }

    /// Whether the numbers of what is installed are used up.
    pub fn is_used_up(&self) -> (r: bool)
        ensures
            r == (self.installed() is Some && self.installed()->0.last() == u64::MAX),
    {
        match &self.publisher {
            Some(publisher) => publisher.seq == u64::MAX,
            None => false,
        }
    }
}

/// Installs what publishes events.
pub fn install_global_publisher(slot: &mut PublisherSlot, publisher: UiEventPublisher)
    ensures
        final(slot).installed() == Some(publisher),
{
    slot.publisher = Some(publisher);
}

/// Removes what publishes events.
pub fn clear_global_publisher(slot: &mut PublisherSlot)
    ensures
        final(slot).installed() is None,
{
    slot.publisher = None;
}

/// The event to publish; nothing where nothing is installed.
pub fn emit_event(slot: &mut PublisherSlot, event_type: &str, payload: Json, now_ms: u64) -> (r:
    Option<UiEventEnvelope>)
    requires
        old(slot).installed() is Some ==> old(slot).installed()->0.last() < u64::MAX,
    ensures
        match old(slot).installed() {
            None => r is None && final(slot).installed() is None,
            Some(before) => {
                &&& r is Some
                &&& is_next(r->0, before.last(), event_type@, payload, now_ms)
                &&& final(slot).installed() is Some
                &&& final(slot).installed()->0.last() == before.last() + 1
            },
        },
{
    match slot.publisher.take() {
        None => None,
        Some(publisher) => {
            let mut publisher = publisher;
            let event = publisher.emit(event_type, payload, now_ms);
            slot.publisher = Some(publisher);
            Some(event)
        },
    }
}

/// What is asked to be published: the type, the payload and the time of an event.
pub struct Publication {
    pub event_type: Seq<char>,
    pub payload: Json,
    pub now_ms: u64,
}

/// Whether `events` are published in turn with these contents by one that has published nothing
/// before; `last` holds the number of its last event before the first and after each of them.
pub open spec fn published_in_turn(
    events: Seq<UiEventEnvelope>,
    asked: Seq<Publication>,
    last: Seq<u64>,
) -> bool {
    &&& asked.len() == events.len()
    &&& last.len() == events.len() + 1
    &&& last[0] == 0
    &&& forall|k: int|
        0 <= k < events.len() ==> last[k + 1] == last[k] + 1 && is_next(
            #[trigger] events[k],
            last[k],
            asked[k].event_type,
            asked[k].payload,
            asked[k].now_ms,
        )
}

/// The events that are published in turn are numbered from one on without a gap, and each has the
/// contents that were asked for.
pub proof fn events_are_numbered_in_turn(
    events: Seq<UiEventEnvelope>,
    asked: Seq<Publication>,
    last: Seq<u64>,
)
    requires
        published_in_turn(events, asked, last),
    ensures
        last.last() == events.len(),
        forall|k: int|
            0 <= k < events.len() ==> {
                &&& (#[trigger] events[k]).v == 1
                &&& events[k].seq == k + 1
                &&& events[k].at_ms == asked[k].now_ms
                &&& events[k].event_type@ == asked[k].event_type
                &&& events[k].payload == asked[k].payload
            },
{
    assert forall|k: int| 0 <= k <= events.len() implies #[trigger] last[k] == k by {
        numbers_so_far(events, asked, last, k);
    }
}

proof fn numbers_so_far(
    events: Seq<UiEventEnvelope>,
    asked: Seq<Publication>,
    last: Seq<u64>,
    k: int,
)
    requires
        published_in_turn(events, asked, last),
        0 <= k <= events.len(),
    ensures
        last[k] == k,
    decreases k,
{
    if k > 0 {
        numbers_so_far(events, asked, last, k - 1);
        assert(is_next(
            events[k - 1],
            last[k - 1],
            asked[k - 1].event_type,
            asked[k - 1].payload,
            asked[k - 1].now_ms,
        ));
    }
}

/// The clients without the one at `i`, whose place the last one takes.
pub open spec fn dropped(clients: Seq<u64>, i: int) -> Seq<u64> {
    clients.update(i, clients.last()).drop_last()
}

/// The clients that are left once the line was written to each from `i` on, where `delivered` says
/// to which it could be written.
pub open spec fn after_broadcast(
    clients: Seq<u64>,
    i: int,
    delivered: spec_fn(u64) -> bool,
) -> Seq<u64>
    decreases clients.len() - i,
{
    if i < 0 || i >= clients.len() {
        clients
    } else if delivered(clients[i]) {
        after_broadcast(clients, i + 1, delivered)
    } else {
        after_broadcast(dropped(clients, i), i, delivered)
    }
}

/// Takes in whether a line could be written to the client at `i`, and gives the place of the next
/// client to write to. A client to which it could not be written is dropped.
pub fn broadcast_line(clients: &mut Vec<u64>, i: usize, delivered: bool) -> (next: usize)
    requires
        i < old(clients)@.len(),
    ensures
        delivered ==> final(clients)@ == old(clients)@ && next == i + 1,
        !delivered ==> final(clients)@ == dropped(old(clients)@, i as int) && next == i,
{
    let count: usize = clients.len();
    assert(i < count);
    if delivered {
        i + 1
    } else {
        let _ = clients.swap_remove(i);
        i
    }
}

/// The clients that are left after a broadcast are those to which the line could be written.
pub proof fn broadcast_keeps_the_delivered(
    clients: Seq<u64>,
    delivered: spec_fn(u64) -> bool,
    client: u64,
)
    ensures
        after_broadcast(clients, 0, delivered).contains(client) <==> clients.contains(client)
            && delivered(client),
{
    broadcast_from(clients, 0, delivered, client);
    assert(clients.take(0) =~= Seq::empty());
    assert(clients.skip(0) =~= clients);
}

proof fn broadcast_from(
    clients: Seq<u64>,
    i: int,
    delivered: spec_fn(u64) -> bool,
    client: u64,
)
    requires
        0 <= i <= clients.len(),
    ensures
        after_broadcast(clients, i, delivered).contains(client) <==> clients.take(i).contains(
            client,
        ) || (clients.skip(i).contains(client) && delivered(client)),
    decreases clients.len() - i,
{
    if i == clients.len() {
        assert(clients.take(i) =~= clients);
        assert(clients.skip(i) =~= Seq::empty());
    } else if delivered(clients[i]) {
        broadcast_from(clients, i + 1, delivered, client);
        assert(clients.take(i + 1) =~= clients.take(i).push(clients[i]));
        assert(clients.skip(i) =~= seq![clients[i]] + clients.skip(i + 1));
        contains_of_push(clients.take(i), clients[i], client);
        contains_of_front(clients[i], clients.skip(i + 1), client);
    } else {
        let left = dropped(clients, i);
        broadcast_from(left, i, delivered, client);
        assert(left.take(i) =~= clients.take(i));
        let rest = clients.skip(i + 1);
        assert(clients.skip(i) =~= seq![clients[i]] + rest);
        contains_of_front(clients[i], rest, client);
        if left.skip(i).contains(client) {
            let n = left.skip(i).index_of(client);
            if n == 0 {
                assert(rest[rest.len() - 1] == client);
            } else {
                assert(rest[n - 1] == client);
            }
        }
        if rest.contains(client) {
            let n = rest.index_of(client);
            if n == rest.len() - 1 {
                assert(left.skip(i)[0] == client);
            } else {
                assert(left.skip(i)[n + 1] == client);
            }
        }
    }
}

proof fn contains_of_push(s: Seq<u64>, x: u64, client: u64)
    ensures
        s.push(x).contains(client) <==> s.contains(client) || x == client,
{
    if s.contains(client) {
        assert(s.push(x)[s.index_of(client)] == client);
    }
    assert(s.push(x)[s.len() as int] == x);
}

proof fn contains_of_front(x: u64, s: Seq<u64>, client: u64)
    ensures
        (seq![x] + s).contains(client) <==> x == client || s.contains(client),
{
    let all = seq![x] + s;
    assert(all[0] == x);
    if s.contains(client) {
        assert(all[s.index_of(client) + 1] == client);
    }
    if all.contains(client) && x != client {
        assert(s[all.index_of(client) - 1] == client);
    }
}

// ---------------------------------------------------------------------------------------------
// Laws of publishing
// ---------------------------------------------------------------------------------------------

/// An event is published with exactly its contents, and two that follow each other have numbers
/// that follow each other; the first has the number one.
pub proof fn events_follow_each_other(
    publisher: UiEventPublisher,
    before: &mut UiEventPublisher,
    first_type: &str,
    first_payload: Json,
    first_ms: u64,
    first: UiEventEnvelope,
    after: &mut UiEventPublisher,
    second_type: &str,
    second_payload: Json,
    second_ms: u64,
    second: UiEventEnvelope,
)
    requires
        call_ensures(UiEventPublisher::emit, (before, first_type, first_payload, first_ms), first),
        *old(after) == *final(before),
        call_ensures(
            UiEventPublisher::emit,
            (after, second_type, second_payload, second_ms),
            second,
        ),
    ensures
        first.v == 1 && second.v == 1,
        first.event_type@ == first_type@,
        first.payload == first_payload,
        first.at_ms == first_ms,
        second.event_type@ == second_type@,
        second.payload == second_payload,
        second.at_ms == second_ms,
        second.seq == first.seq + 1,
        call_ensures(UiEventPublisher::new, (), publisher) && *old(before) == publisher
            ==> first.seq == 1,
{
}

/// Where nothing is installed nothing is published; what was installed publishes, and no more once
/// it was removed.
pub proof fn only_what_is_installed_publishes(
    slot: &mut PublisherSlot,
    publisher: UiEventPublisher,
    then: &mut PublisherSlot,
    event_type: &str,
    payload: Json,
    now_ms: u64,
    r: Option<UiEventEnvelope>,
    cleared: bool,
)
    requires
        if cleared {
            call_ensures(clear_global_publisher, (slot,), ())
        } else {
            call_ensures(install_global_publisher, (slot, publisher), ())
        },
        *old(then) == *final(slot),
        call_ensures(emit_event, (then, event_type, payload, now_ms), r),
    ensures
        cleared ==> r is None,
        !cleared ==> r is Some && r->0.event_type@ == event_type@ && r->0.payload == payload
            && r->0.at_ms == now_ms,
{
}

/// A line that was delivered to a client keeps it, and all others; one that was not drops this
/// client and no other.
pub proof fn only_the_lost_client_is_dropped(
    clients: &mut Vec<u64>,
    i: usize,
    delivered: bool,
    next: usize,
    client: u64,
)
    requires
        call_ensures(broadcast_line, (clients, i, delivered), next),
        i < old(clients)@.len(),
    ensures
        delivered ==> final(clients)@ == old(clients)@ && next == i + 1,
        !delivered ==> next == i && final(clients)@.len() == old(clients)@.len() - 1,
        !delivered ==> final(clients)@.take(i as int) == old(clients)@.take(i as int),
        !delivered && client != old(clients)@[i as int] ==> (final(clients)@.contains(client)
            <==> old(clients)@.contains(client)),
{
    if !delivered {
        let before = old(clients)@;
        let after = final(clients)@;
        assert(after.take(i as int) =~= before.take(i as int));
        if client != before[i as int] {
            if before.contains(client) {
                let n = before.index_of(client);
                if n == before.len() - 1 {
                    assert(after[i as int] == client);
                } else {
                    assert(after[n] == client);
                }
            }
            if after.contains(client) {
                let n = after.index_of(client);
                if n == i {
                    assert(before[before.len() - 1] == client);
                } else {
                    assert(before[n] == client);
                }
            }
        }
    }
}

} // verus!
