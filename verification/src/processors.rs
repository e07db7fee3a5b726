//! The event processors.
//!
//! Each processor owns an independent read cursor over the event bus and, per
//! invocation, consumes at most one pending event — the one under its own
//! cursor — before advancing it.  The audio processor turns event kinds into
//! sound-cue names for the audio collaborator to play; the log processor
//! formats combat events into text lines it records; the world responder
//! reacts to a boss death by spawning the stairs next to where the boss fell.

use vstd::prelude::*;
use crate::entity::Entity;
use crate::event::{
    flat_value, lookup, reader_coherent, EventBusReader, EventData, EventType, GameEvent,
};
use crate::mapgen::{stairs_entity_ok, DungeonMap};

verus! {

use vstd::string::StringExecFns;

/// The sound cue a given event kind triggers, if any.
pub open spec fn audio_cue(t: EventType) -> Option<Seq<char>> {
    match t {
        EventType::PlayerAttack => Some("punch"@),
        EventType::MonsterAttack => Some("monster1"@),
        EventType::MonsterDie => Some("monster_die1"@),
        EventType::BossDie => Some("monster_die1"@),
        EventType::PlayerPickupItem => Some("pick"@),
        _ => None,
    }
}

/// Advancing a cursor one slot, wrapping at the capacity.
pub open spec fn cursor_next(head: int, cap: int) -> int {
    (head + 1) % cap
}

/// Maps event kinds to sound cues; playing them is the audio collaborator's
/// business, so each call hands back at most one cue name.
pub struct AudioEventProcessor {
    pub event_bus_reader: EventBusReader,
}

/// What one `AudioEventProcessor::process` call does: nothing when no event
/// is pending, else the cursor advances and the pending event's cue (if any)
/// comes back.
pub open spec fn audio_process_post(
    o: AudioEventProcessor,
    n: AudioEventProcessor,
    bus: Seq<GameEvent>,
    cap: int,
    tail: int,
    r: Option<String>,
) -> bool {
    if o.event_bus_reader.head == tail {
        &&& n == o
        &&& r is None
    } else {
        &&& n.event_bus_reader.head as int == cursor_next(o.event_bus_reader.head as int, cap)
        &&& match audio_cue(bus[o.event_bus_reader.head as int].event_type) {
            Some(name) => r matches Some(s) && s@ == name,
            None => r is None,
        }
    }
}

impl AudioEventProcessor {
    pub fn new() -> (r: AudioEventProcessor)
        ensures
            r.event_bus_reader.head == 0,
    {
        AudioEventProcessor { event_bus_reader: EventBusReader { head: 0 } }
    }

    /// Consumes at most the one event under the cursor and names the sound
    /// cue it calls for, if any.  The map and entities are part of every
    /// processor's interface; this one only listens.
    pub fn process(
        &mut self,
        map: &mut DungeonMap,
        entities: &mut Vec<Entity>,
        bus: &Vec<GameEvent>,
        max_events: usize,
        bus_tail: usize,
    ) -> (r: Option<String>)
        requires
            reader_coherent(
                bus@.len() as int,
                max_events as int,
                bus_tail as int,
                old(self).event_bus_reader.head as int,
            ),
        ensures
            *final(map) == *old(map),
            *final(entities) == *old(entities),
            audio_process_post(
                *old(self),
                *final(self),
                bus@,
                max_events as int,
                bus_tail as int,
                r,
            ),
    {
        if self.event_bus_reader.head == bus_tail {
            return None;
        }
        let sample_name = match bus[self.event_bus_reader.head].event_type {
            EventType::PlayerAttack => Some(String::from_str("punch")),
            EventType::MonsterAttack => Some(String::from_str("monster1")),
            EventType::MonsterDie => Some(String::from_str("monster_die1")),
            EventType::BossDie => Some(String::from_str("monster_die1")),
            EventType::PlayerPickupItem => Some(String::from_str("pick")),
            _ => None,
        };
        proof {
            if self.event_bus_reader.head + 1 < max_events {
                vstd::arithmetic::div_mod::lemma_small_mod(
                    (self.event_bus_reader.head + 1) as nat,
                    max_events as nat,
                );
            } else {
                vstd::arithmetic::div_mod::lemma_mod_self_0(max_events as int);
            }
        }
        self.event_bus_reader.head = (self.event_bus_reader.head + 1) % max_events;
        sample_name
    }
}

/// The text line recorded for an `EntityAttacked` event whose payload is
/// complete.
pub open spec fn attack_log_line(d: Seq<(String, EventData)>) -> Seq<char> {
    "entity with name "@ + flat_value(lookup(d, "attacker_name"@)->Some_0) + " at "@ + flat_value(
        lookup(d, "attacker_pos"@)->Some_0,
    ) + " attacked entity with name "@ + flat_value(lookup(d, "target_name"@)->Some_0) + " at "@
        + flat_value(lookup(d, "target_pos"@)->Some_0) + " for "@ + flat_value(
        lookup(d, "damage"@)->Some_0,
    ) + " damage"@
}

/// Whether an `EntityAttacked` payload carries every field the log line
/// needs.
pub open spec fn attack_payload_complete(d: Seq<(String, EventData)>) -> bool {
    &&& lookup(d, "attacker_name"@) is Some
    &&& lookup(d, "attacker_pos"@) is Some
    &&& lookup(d, "target_name"@) is Some
    &&& lookup(d, "target_pos"@) is Some
    &&& lookup(d, "damage"@) is Some
}

/// Formats combat events into text lines and records them.
pub struct EventLogProcessor {
    pub event_bus_reader: EventBusReader,
    pub log: Vec<String>,
}

/// What one `EventLogProcessor::process` call does: nothing when no event is
/// pending; otherwise the cursor advances and an `EntityAttacked` event is
/// recorded — formatted when its payload is complete, noted with a warning
/// when it is not.
pub open spec fn logger_process_post(
    o: EventLogProcessor,
    n: EventLogProcessor,
    bus: Seq<GameEvent>,
    cap: int,
    tail: int,
) -> bool {
    if o.event_bus_reader.head == tail {
        n == o
    } else {
        &&& n.event_bus_reader.head as int == cursor_next(o.event_bus_reader.head as int, cap)
        &&& ({
            let ev = bus[o.event_bus_reader.head as int];
            if ev.event_type == EventType::EntityAttacked {
                &&& n.log_view().len() == o.log_view().len() + 1
                &&& n.log_view().subrange(0, o.log_view().len() as int) == o.log_view()
                &&& n.log_view().last()@ == if attack_payload_complete(ev.data@) {
                    attack_log_line(ev.data@)
                } else {
                    "EntityAttacked event is missing payload data"@
                }
            } else {
                n.log_view() == o.log_view()
            }
        })
    }
}

impl EventLogProcessor {
    /// The recorded lines, oldest first.
    pub open spec fn log_view(&self) -> Seq<String> {
        self.log@
    }

    pub fn new() -> (r: EventLogProcessor)
        ensures
            r.event_bus_reader.head == 0,
            r.log_view() =~= Seq::<String>::empty(),
    {
        EventLogProcessor { event_bus_reader: EventBusReader { head: 0 }, log: Vec::new() }
    }

    pub fn log_len(&self) -> (r: usize)
        ensures
            r == self.log_view().len(),
    {
        self.log.len()
    }

    /// The `i`-th recorded line.
    pub fn log_line(&self, i: usize) -> (r: &String)
        requires
            i < self.log_view().len(),
        ensures
            *r == self.log_view()[i as int],
    {
        &self.log[i]
    }

    /// Consumes at most the one event under the cursor; an `EntityAttacked`
    /// event is formatted and recorded, or noted with a warning when its
    /// payload is incomplete.  The event is consumed either way.  The map and
    /// entities are part of every processor's interface; this one only
    /// records.
    pub fn process(
        &mut self,
        map: &mut DungeonMap,
        entities: &mut Vec<Entity>,
        bus: &Vec<GameEvent>,
        max_events: usize,
        bus_tail: usize,
    )
        requires
            reader_coherent(
                bus@.len() as int,
                max_events as int,
                bus_tail as int,
                old(self).event_bus_reader.head as int,
            ),
        ensures
            *final(map) == *old(map),
            *final(entities) == *old(entities),
            logger_process_post(*old(self), *final(self), bus@, max_events as int, bus_tail as int),
    {
        if self.event_bus_reader.head == bus_tail {
            return ;
        }
        let event = &bus[self.event_bus_reader.head];
        match event.event_type {
            EventType::EntityAttacked => {
                let attacker_name = event.get_data("attacker_name");
                let attacker_pos = event.get_data("attacker_pos");
                let target_name = event.get_data("target_name");
                let target_pos = event.get_data("target_pos");
                let damage = event.get_data("damage");
                match (attacker_name, attacker_pos, target_name, target_pos, damage) {
                    (Some(an), Some(ap), Some(tn), Some(tp), Some(dm)) => {
                        let mut line = String::from_str("entity with name ");
                        line.append(flat_value_string_ref(an).as_str());
                        line.append(" at ");
                        line.append(flat_value_string_ref(ap).as_str());
                        line.append(" attacked entity with name ");
                        line.append(flat_value_string_ref(tn).as_str());
                        line.append(" at ");
                        line.append(flat_value_string_ref(tp).as_str());
                        line.append(" for ");
                        line.append(flat_value_string_ref(dm).as_str());
                        line.append(" damage");
                        self.log.push(line);
                    },
                    _ => {
                        self.log.push(
                            String::from_str("EntityAttacked event is missing payload data"),
                        );
                    },
                }
                proof {
                    assert(self.log@.subrange(0, old(self).log_view().len() as int) =~= old(
                        self,
                    ).log_view());
                }
            },
            _ => {},
        }
        proof {
            if self.event_bus_reader.head + 1 < max_events {
                vstd::arithmetic::div_mod::lemma_small_mod(
                    (self.event_bus_reader.head + 1) as nat,
                    max_events as nat,
                );
            } else {
                vstd::arithmetic::div_mod::lemma_mod_self_0(max_events as int);
            }
        }
        self.event_bus_reader.head = (self.event_bus_reader.head + 1) % max_events;
    }
}

/// `flat_value_string` on a borrowed payload value.
fn flat_value_string_ref(d: &EventData) -> (r: String)
    ensures
        r@ == flat_value(*d),
{
    crate::event::flat_value_string(d)
}

/// Reacts to world-shaping events: a boss death spawns the stairs one square
/// above where the boss fell.  A malformed payload is recorded as a warning
/// and the event is consumed anyway.
pub struct GameOccurrenceEventProcessor {
    pub event_bus_reader: EventBusReader,
    pub warnings: Vec<String>,
}

/// What one `GameOccurrenceEventProcessor::process` call does: nothing when
/// no event is pending; otherwise the cursor advances, a `BossDie` event
/// with a usable position payload appends one stairs entity just above it,
/// and a `BossDie` event whose payload is missing or of the wrong kind
/// leaves the world alone but records one warning line.
pub open spec fn responder_process_post(
    o: GameOccurrenceEventProcessor,
    n: GameOccurrenceEventProcessor,
    bus: Seq<GameEvent>,
    cap: int,
    tail: int,
    old_entities: Seq<Entity>,
    new_entities: Seq<Entity>,
) -> bool {
    if o.event_bus_reader.head == tail {
        &&& n == o
        &&& new_entities == old_entities
    } else {
        &&& n.event_bus_reader.head as int == cursor_next(o.event_bus_reader.head as int, cap)
        &&& ({
            let ev = bus[o.event_bus_reader.head as int];
            if ev.event_type == EventType::BossDie {
                match lookup(ev.data@, "position"@) {
                    Some(EventData::TupleI32I32(x, y)) => if y > i32::MIN {
                        &&& new_entities.len() == old_entities.len() + 1
                        &&& new_entities.subrange(0, old_entities.len() as int) == old_entities
                        &&& stairs_entity_ok(new_entities.last())
                        &&& new_entities.last().x == x
                        &&& new_entities.last().y == y - 1
                        &&& n.warnings@ == o.warnings@
                    } else {
                        // the square above this position cannot be addressed
                        &&& new_entities == old_entities
                        &&& n.warnings@ == o.warnings@
                    },
                    Some(_) => {
                        &&& new_entities == old_entities
                        &&& warning_logged(
                            o.warnings@,
                            n.warnings@,
                            "WARNING: attempted to pull position data, but it wasn't of the correct type"@,
                        )
                    },
                    None => {
                        &&& new_entities == old_entities
                        &&& warning_logged(
                            o.warnings@,
                            n.warnings@,
                            "WARNING: attempted to pull position data, but it wasn't on the event"@,
                        )
                    },
                }
            } else {
                &&& new_entities == old_entities
                &&& n.warnings@ == o.warnings@
            }
        })
    }
}

/// The warning list `nw` is `ow` plus one line with the given text.
pub open spec fn warning_logged(ow: Seq<String>, nw: Seq<String>, text: Seq<char>) -> bool {
    &&& nw.len() == ow.len() + 1
    &&& nw.subrange(0, ow.len() as int) == ow
    &&& nw.last()@ == text
}

impl GameOccurrenceEventProcessor {
    pub fn new() -> (r: GameOccurrenceEventProcessor)
        ensures
            r.event_bus_reader.head == 0,
            r.warnings@ =~= Seq::<String>::empty(),
    {
        GameOccurrenceEventProcessor {
            event_bus_reader: EventBusReader { head: 0 },
            warnings: Vec::new(),
        }
    }

    /// Consumes at most the one event under the cursor; on `BossDie` with a
    /// position payload `(x, y)` it appends a stairs entity at `(x, y - 1)`.
    /// A malformed payload is consumed with no effect beyond a recorded
    /// warning.
    pub fn process(
        &mut self,
        map: &mut DungeonMap,
        entities: &mut Vec<Entity>,
        bus: &Vec<GameEvent>,
        max_events: usize,
        bus_tail: usize,
    )
        requires
            reader_coherent(
                bus@.len() as int,
                max_events as int,
                bus_tail as int,
                old(self).event_bus_reader.head as int,
            ),
        ensures
            *final(map) == *old(map),
            responder_process_post(
                *old(self),
                *final(self),
                bus@,
                max_events as int,
                bus_tail as int,
                old(entities)@,
                final(entities)@,
            ),
    {
        proof {
            reveal_strlit(
                "WARNING: attempted to pull position data, but it wasn't of the correct type",
            );
            reveal_strlit("WARNING: attempted to pull position data, but it wasn't on the event");
        }
        if self.event_bus_reader.head == bus_tail {
            return ;
        }
        let event = &bus[self.event_bus_reader.head];
        match event.event_type {
            EventType::BossDie => {
                let ghost warnings0 = self.warnings@;
                match event.get_data("position") {
                    Some(EventData::TupleI32I32(x, y)) => {
                        if *y > i32::MIN {
                            let mut stairs = Entity::new(
                                *x,
                                *y - 1,
                                '<',
                                crate::color::white(),
                                "stairs",
                                false,
                            );
                            stairs.always_visible = true;
                            let ghost before = entities@;
                            entities.push(stairs);
                            proof {
                                assert(entities@.subrange(0, before.len() as int) =~= before);
                            }
                        }
                    },
                    Some(_) => {
                        self.warnings.push(
                            String::from_str(
                                "WARNING: attempted to pull position data, but it wasn't of the correct type",
                            ),
                        );
                        proof {
                            assert(self.warnings@.subrange(0, warnings0.len() as int)
                                =~= warnings0);
                        }
                    },
                    None => {
                        self.warnings.push(
                            String::from_str(
                                "WARNING: attempted to pull position data, but it wasn't on the event",
                            ),
                        );
                        proof {
                            assert(self.warnings@.subrange(0, warnings0.len() as int)
                                =~= warnings0);
                        }
                    },
                }
            },
            _ => {},
        }
        proof {
            if self.event_bus_reader.head + 1 < max_events {
                vstd::arithmetic::div_mod::lemma_small_mod(
                    (self.event_bus_reader.head + 1) as nat,
                    max_events as nat,
                );
            } else {
                vstd::arithmetic::div_mod::lemma_mod_self_0(max_events as int);
            }
        }
        self.event_bus_reader.head = (self.event_bus_reader.head + 1) % max_events;
    }
}

} // verus!
