//! Game events and the bounded event bus.
//!
//! The bus is a fixed-capacity ring buffer with a single write cursor; each
//! processor owns an independent read cursor.  Once the buffer is full a
//! write overwrites the oldest slot with no regard for any reader, so a
//! reader that falls a full buffer-length behind silently loses events.

use vstd::prelude::*;

verus! {

/// The kinds of event the simulation emits.
#[derive(Clone, Copy, Debug, PartialEq, Eq, Structural)]
pub enum EventType {
    PlayerAttack,
    EntityAttacked,
    PlayerMove,
    PlayerDie,
    MonsterAttack,
    MonsterMove,
    MonsterDie,
    BossDie,
    PlayerPickupItem,
}

/// One payload value of an event: a closed set of plain kinds.
#[derive(Clone, Debug, PartialEq, Eq)]
pub enum EventData {
    TupleI32I32(i32, i32),
    String(String),
    I32(i32),
    Boolean(bool),
}

/// An event: its kind plus a keyed mapping of payload values.
#[derive(Clone, Debug)]
pub struct GameEvent {
    pub event_type: EventType,
    pub data: Vec<(String, EventData)>,
}

/// A payload value flattened to text: positions as `(x,y)`, numbers in
/// decimal, booleans as `true`/`false`, strings as themselves.
pub open spec fn flat_value(d: EventData) -> Seq<char> {
    match d {
        EventData::TupleI32I32(x, y) => crate::fmt::pos_chars(x, y),
        EventData::String(s) => s@,
        EventData::I32(v) => crate::fmt::i32_chars(v),
        EventData::Boolean(b) => crate::fmt::bool_chars(b),
    }
}

/// The value stored under `key`: the first pair that matches, if any.
pub open spec fn lookup(entries: Seq<(String, EventData)>, key: Seq<char>) -> Option<EventData>
    decreases entries.len(),
{
    if entries.len() == 0 {
        None
    } else if entries.first().0@ == key {
        Some(entries.first().1)
    } else {
        lookup(entries.drop_first(), key)
    }
}

/// Formats one payload value as `flat_value` describes.
pub fn flat_value_string(d: &EventData) -> (r: String)
    ensures
        r@ == flat_value(*d),
{
    match d {
        EventData::TupleI32I32(x, y) => crate::fmt::pos_string(*x, *y),
        EventData::String(s) => s.clone(),
        EventData::I32(v) => crate::fmt::i32_string(*v),
        EventData::Boolean(b) => crate::fmt::bool_string(*b),
    }
}

/// The write cursor, a reader's cursor and the buffer agree: both cursors sit
/// inside the buffer's capacity, and while the buffer is still growing the
/// write cursor sits at its end with no reader past it.
pub open spec fn reader_coherent(len: int, cap: int, tail: int, head: int) -> bool {
    &&& 0 < cap
    &&& len <= cap
    &&& tail < cap
    &&& head < cap
    &&& (len < cap ==> tail == len && head <= len)
}

impl GameEvent {
    /// An event of the given kind with no payload.
    pub fn from_type(event: EventType) -> (r: GameEvent)
        ensures
            r.event_type == event,
            r.data@ =~= Seq::<(String, EventData)>::empty(),
    {
        GameEvent { event_type: event, data: Vec::new() }
    }

    /// An event of the given kind carrying `data`.
    pub fn from_type_with_data(event: EventType, data: Vec<(String, EventData)>) -> (r: GameEvent)
        ensures
            r.event_type == event,
            r.data == data,
    {
        GameEvent { event_type: event, data }
    }

    /// The payload values flattened to text, key order kept.
    pub fn get_data_as_flat_hashmap(&self) -> (r: Vec<(String, String)>)
        ensures
            r@.len() == self.data@.len(),
            forall|i: int|
                0 <= i < r@.len() ==> r@[i].0@ == self.data@[i].0@ && r@[i].1@ == flat_value(
                    self.data@[i].1,
                ),
    {
        let n = self.data.len();
        let mut r: Vec<(String, String)> = Vec::new();
        let mut i: usize = 0;
        while i < n
            invariant
                i <= n,
                n == self.data@.len(),
                r@.len() == i,
                forall|j: int|
                    0 <= j < i ==> r@[j].0@ == self.data@[j].0@ && r@[j].1@ == flat_value(
                        self.data@[j].1,
                    ),
            decreases n - i,
        {
            let key = self.data[i].0.clone();
            let text = flat_value_string(&self.data[i].1);
            r.push((key, text));
            i = i + 1;
        }
        r
    }

    /// The payload value stored under `key`, if any.
    pub fn get_data(&self, key: &str) -> (r: Option<&EventData>)
        ensures
            match r {
                Some(v) => lookup(self.data@, key@) == Some(*v),
                None => lookup(self.data@, key@) is None,
            },
    {
        let n = self.data.len();
        let mut i: usize = 0;
        assert(self.data@.skip(0) =~= self.data@);
        while i < n
            invariant
                i <= n,
                n == self.data@.len(),
                lookup(self.data@, key@) == lookup(self.data@.skip(i as int), key@),
            decreases n - i,
        {
            assert(self.data@.skip(i as int).first() == self.data@[i as int]);
            if crate::strutil::str_eq(self.data[i].0.as_str(), key) {
                return Some(&self.data[i].1);
            }
            assert(self.data@.skip(i as int).drop_first() =~= self.data@.skip(i + 1));
            i = i + 1;
        }
        None
    }
}

/// A single independent read cursor over the bus.
#[derive(Clone, Copy, Debug, PartialEq, Eq, Structural)]
pub struct EventBusReader {
    pub head: usize,
}

/// The bounded ring buffer of events plus its write cursor.
#[derive(Clone, Debug)]
pub struct EventBus {
    pub bus: Vec<GameEvent>,
    pub bus_tail: usize,
    pub max_events: usize,
}

/// One ring-buffer write at the spec level: overwrite the slot under the
/// write cursor if the buffer has grown past it, append otherwise, and
/// advance the cursor modulo capacity.
pub open spec fn ring_push(
    bus: Seq<GameEvent>,
    tail: int,
    cap: int,
    event: GameEvent,
) -> (Seq<GameEvent>, int) {
    (
        if bus.len() > tail {
            bus.update(tail, event)
        } else {
            bus.push(event)
        },
        (tail + 1) % cap,
    )
}

/// A whole sequence of ring-buffer writes, oldest first.
pub open spec fn ring_push_all(
    bus: Seq<GameEvent>,
    tail: int,
    cap: int,
    events: Seq<GameEvent>,
) -> (Seq<GameEvent>, int)
    decreases events.len(),
{
    if events.len() == 0 {
        (bus, tail)
    } else {
        let (bus1, tail1) = ring_push(bus, tail, cap, events.first());
        ring_push_all(bus1, tail1, cap, events.drop_first())
    }
}

impl EventBus {
    /// Every state the bus reaches from construction onward: the buffer never
    /// exceeds capacity, the write cursor stays inside it, and while the
    /// buffer is still growing the cursor sits at its end.
    pub open spec fn wf(self) -> bool {
        &&& 0 < self.max_events
        &&& self.bus@.len() <= self.max_events
        &&& self.bus_tail < self.max_events
        &&& self.bus@.len() < self.max_events ==> self.bus_tail == self.bus@.len()
    }

    /// An empty bus with capacity `max_events`.
    pub fn new(max_events: usize) -> (r: EventBus)
        requires
            0 < max_events,
        ensures
            r.wf(),
            r.max_events == max_events,
            r.bus_tail == 0,
            r.bus@ =~= Seq::<GameEvent>::empty(),
    {
        EventBus { bus: Vec::new(), bus_tail: 0, max_events }
    }

    /// Appends `event`, overwriting the oldest slot when the buffer is full,
    /// and advances the write cursor modulo capacity.
    pub fn add_event(&mut self, event: GameEvent)
        requires
            old(self).wf(),
        ensures
            final(self).wf(),
            final(self).max_events == old(self).max_events,
            (final(self).bus@, final(self).bus_tail as int) == ring_push(
                old(self).bus@,
                old(self).bus_tail as int,
                old(self).max_events as int,
                event,
            ),
    {
        if self.bus.len() > self.bus_tail {
            let slot = &mut self.bus[self.bus_tail];
            *slot = event;
        } else {
            self.bus.push(event);
        }
        proof {
            if self.bus_tail + 1 < self.max_events {
                vstd::arithmetic::div_mod::lemma_small_mod(
                    (self.bus_tail + 1) as nat,
                    self.max_events as nat,
                );
            } else {
                vstd::arithmetic::div_mod::lemma_mod_self_0(self.max_events as int);
            }
        }
        self.bus_tail = (self.bus_tail + 1) % self.max_events;
    }
}

/// The event written by the bus transition from `o` to `n`, assuming exactly
/// one write happened: the slot the write cursor pointed at, or the newly
/// appended last slot.
pub open spec fn appended_event(o: EventBus, n: EventBus) -> GameEvent {
    if o.bus@.len() > o.bus_tail {
        n.bus@[o.bus_tail as int]
    } else {
        n.bus@.last()
    }
}

/// The bus went from `o` to `n` by exactly one write: the buffers and cursors
/// relate as one `ring_push` of the written event.
pub open spec fn bus_push_shape(o: EventBus, n: EventBus) -> bool {
    &&& n.max_events == o.max_events
    &&& (n.bus@, n.bus_tail as int) == ring_push(
        o.bus@,
        o.bus_tail as int,
        o.max_events as int,
        appended_event(o, n),
    )
}

/// The bus went from `o` to `n` by one write of an event of kind `t` with no
/// payload.
pub open spec fn pushed_plain_event(o: EventBus, n: EventBus, t: EventType) -> bool {
    &&& bus_push_shape(o, n)
    &&& appended_event(o, n).event_type == t
    &&& appended_event(o, n).data@.len() == 0
}

/// Filling an empty bus with at most a buffer-length of events loses nothing:
/// slot `i` holds the `i`-th pushed event, so a reader that starts at slot 0
/// and consumes them in cursor order sees them first-in first-out.
pub proof fn lemma_fifo_within_capacity(cap: int, events: Seq<GameEvent>)
    requires
        0 < cap,
        events.len() <= cap,
    ensures
        ring_push_all(Seq::empty(), 0, cap, events).0 =~= events,
        ring_push_all(Seq::empty(), 0, cap, events).1 == events.len() as int % cap,
    decreases events.len(),
{
    vstd::arithmetic::div_mod::lemma_small_mod(0nat, cap as nat);
    lemma_fill_from_prefix(cap, events, Seq::empty());
}

/// Helper for the FIFO lemma: pushing `events` onto a growing bus that
/// already holds `prefix` (with the cursor at its end) appends them in order.
proof fn lemma_fill_from_prefix(cap: int, events: Seq<GameEvent>, prefix: Seq<GameEvent>)
    requires
        0 < cap,
        prefix.len() + events.len() <= cap,
    ensures
        ring_push_all(prefix, prefix.len() as int % cap, cap, events).0 =~= prefix + events,
        ring_push_all(prefix, prefix.len() as int % cap, cap, events).1 == (prefix.len()
            + events.len()) as int % cap,
    decreases events.len(),
{
    if events.len() == 0 {
        assert(prefix + events =~= prefix);
    } else {
        let e = events.first();
        let bus1 = prefix.push(e);
        vstd::arithmetic::div_mod::lemma_small_mod(prefix.len(), cap as nat);
        if prefix.len() + 1 < cap {
            vstd::arithmetic::div_mod::lemma_small_mod(prefix.len() + 1, cap as nat);
        } else {
            vstd::arithmetic::div_mod::lemma_mod_self_0(cap);
        }
        assert(ring_push(prefix, prefix.len() as int % cap, cap, e) == (
            bus1,
            bus1.len() as int % cap,
        ));
        lemma_fill_from_prefix(cap, events.drop_first(), bus1);
        assert(prefix + events =~= bus1 + events.drop_first());
    }
}

/// Pushing one event past capacity into a bus filled from empty overwrites
/// exactly the oldest slot: slot 0 now holds the newest event and every other
/// slot still holds what it held before.
pub proof fn lemma_overwrite_oldest(cap: int, events: Seq<GameEvent>)
    requires
        0 < cap,
        events.len() == cap + 1,
    ensures
        ring_push_all(Seq::empty(), 0, cap, events).0 =~= events.subrange(0, cap).update(
            0,
            events.last(),
        ),
        ring_push_all(Seq::empty(), 0, cap, events).1 == 1int % cap,
{
    let first_cap = events.subrange(0, cap);
    lemma_push_all_snoc(Seq::empty(), 0, cap, first_cap, events.last());
    assert(first_cap.push(events.last()) =~= events);
    lemma_fifo_within_capacity(cap, first_cap);
    vstd::arithmetic::div_mod::lemma_mod_self_0(cap);
}

/// Pushing `events + [e]` is pushing `events`, then pushing `e`.
proof fn lemma_push_all_snoc(
    bus: Seq<GameEvent>,
    tail: int,
    cap: int,
    events: Seq<GameEvent>,
    e: GameEvent,
)
    ensures
        ring_push_all(bus, tail, cap, events.push(e)) == ring_push(
            ring_push_all(bus, tail, cap, events).0,
            ring_push_all(bus, tail, cap, events).1,
            cap,
            e,
        ),
    decreases events.len(),
{
    if events.len() == 0 {
        assert(events.push(e).first() == e);
        assert(events.push(e).drop_first() =~= Seq::<GameEvent>::empty());
        assert(events.push(e).drop_first() == Seq::<GameEvent>::empty());
        let (bus1, tail1) = ring_push(bus, tail, cap, e);
        assert(ring_push_all(bus, tail, cap, events.push(e)) == ring_push_all(
            bus1,
            tail1,
            cap,
            Seq::<GameEvent>::empty(),
        ));
        assert(ring_push_all(bus, tail, cap, events) == (bus, tail));
    } else {
        let (bus1, tail1) = ring_push(bus, tail, cap, events.first());
        assert(events.push(e).first() == events.first());
        assert(events.push(e).drop_first() =~= events.drop_first().push(e));
        assert(events.push(e).drop_first() == events.drop_first().push(e));
        assert(ring_push_all(bus, tail, cap, events.push(e)) == ring_push_all(
            bus1,
            tail1,
            cap,
            events.drop_first().push(e),
        ));
        lemma_push_all_snoc(bus1, tail1, cap, events.drop_first(), e);
        assert(ring_push_all(bus, tail, cap, events) == ring_push_all(
            bus1,
            tail1,
            cap,
            events.drop_first(),
        ));
    }
}

} // verus!
