//! The game engine: the whole simulation state and the per-turn plumbing.

use vstd::prelude::*;
use crate::camera::Camera;
use crate::entity::{fits_i32, Entity};
use crate::event::{EventBus, GameEvent};
use crate::mapgen::{map_wf, DungeonMap};
use crate::messages::Messages;
use crate::processors::{
    audio_process_post, logger_process_post, responder_process_post, AudioEventProcessor,
    EventLogProcessor, GameOccurrenceEventProcessor,
};

verus! {

/// The index of the player in the entity collection, always 0.
pub const PLAYER: usize = 0;

pub const LEVEL_UP_BASE: i32 = 200;
pub const LEVEL_UP_FACTOR: i32 = 150;

/// What the player's input amounted to this turn.
#[derive(Clone, Copy, Debug, PartialEq, Eq, Structural)]
pub enum PlayerAction {
    TookTurn,
    DidntTakeTurn,
    Exit,
}

/// Which interaction state the game sits in between turns.
#[derive(Clone, Copy, Debug, PartialEq, Eq, Structural)]
pub enum StateType {
    Main,
    UseFromInventory,
    DropFromInventory,
    ChoosingUpgrade,
    MainMenu,
}

/// The player's three level-up upgrades.
#[derive(Clone, Copy, Debug, PartialEq, Eq, Structural)]
pub enum UpgradeChoice {
    Constitution,
    Strength,
    Agility,
}

/// The registered event processors, invoked in registration order each turn.
pub struct ProcessorRegistry {
    pub audio: AudioEventProcessor,
    pub responder: GameOccurrenceEventProcessor,
    pub logger: EventLogProcessor,
}

impl ProcessorRegistry {
    pub fn new() -> (r: ProcessorRegistry)
        ensures
            r.audio.event_bus_reader.head == 0,
            r.responder.event_bus_reader.head == 0,
            r.responder.warnings@ =~= Seq::<String>::empty(),
            r.logger.event_bus_reader.head == 0,
            r.logger.log_view() =~= Seq::<String>::empty(),
    {
        ProcessorRegistry {
            audio: AudioEventProcessor::new(),
            responder: GameOccurrenceEventProcessor::new(),
            logger: EventLogProcessor::new(),
        }
    }
}

/// The simulation state of one run.
pub struct GameEngine {
    pub map: DungeonMap,
    pub messages: Messages,
    pub dungeon_level: u32,
    pub event_bus: EventBus,
    pub processors: ProcessorRegistry,
    pub entities: Vec<Entity>,
    pub camera: Camera,
}

/// A read cursor agrees with the bus: inside capacity, and not past the end
/// of a still-growing buffer.
pub open spec fn head_ok(bus: EventBus, head: int) -> bool {
    &&& head < bus.max_events
    &&& (bus.bus@.len() < bus.max_events ==> head <= bus.bus@.len())
}

impl GameEngine {
    /// Every state the engine reaches: a well-formed bus, every processor
    /// cursor coherent with it, a full-size map, and the player present at
    /// index 0.
    pub open spec fn wf(self) -> bool {
        &&& self.event_bus.wf()
        &&& head_ok(self.event_bus, self.processors.audio.event_bus_reader.head as int)
        &&& head_ok(self.event_bus, self.processors.responder.event_bus_reader.head as int)
        &&& head_ok(self.event_bus, self.processors.logger.event_bus_reader.head as int)
        &&& map_wf(self.map)
        &&& self.entities@.len() >= 1
    }

    /// Pushes one event onto the bus.
    pub fn add_event(&mut self, event: GameEvent)
        requires
            old(self).wf(),
        ensures
            final(self).wf(),
            *final(self) == (GameEngine { event_bus: final(self).event_bus, ..*old(self) }),
            crate::event::bus_push_shape(old(self).event_bus, final(self).event_bus),
            crate::event::appended_event(old(self).event_bus, final(self).event_bus) == event,
    {
        self.event_bus.add_event(event)
    }

    /// Runs every processor once, in registration order; each consumes at
    /// most one pending event.  Returns the sound cue the audio processor
    /// asks the audio collaborator to play, if any.
    pub fn process_events(&mut self) -> (r: Option<String>)
        requires
            old(self).wf(),
        ensures
            final(self).wf(),
            final(self).map == old(self).map,
            final(self).messages == old(self).messages,
            final(self).dungeon_level == old(self).dungeon_level,
            final(self).event_bus == old(self).event_bus,
            final(self).camera == old(self).camera,
            audio_process_post(
                old(self).processors.audio,
                final(self).processors.audio,
                old(self).event_bus.bus@,
                old(self).event_bus.max_events as int,
                old(self).event_bus.bus_tail as int,
                r,
            ),
            responder_process_post(
                old(self).processors.responder,
                final(self).processors.responder,
                old(self).event_bus.bus@,
                old(self).event_bus.max_events as int,
                old(self).event_bus.bus_tail as int,
                old(self).entities@,
                final(self).entities@,
            ),
            logger_process_post(
                old(self).processors.logger,
                final(self).processors.logger,
                old(self).event_bus.bus@,
                old(self).event_bus.max_events as int,
                old(self).event_bus.bus_tail as int,
            ),
    {
        let cue = self.processors.audio.process(
            &mut self.map,
            &mut self.entities,
            &self.event_bus.bus,
            self.event_bus.max_events,
            self.event_bus.bus_tail,
        );
        self.processors.responder.process(
            &mut self.map,
            &mut self.entities,
            &self.event_bus.bus,
            self.event_bus.max_events,
            self.event_bus.bus_tail,
        );
        self.processors.logger.process(
            &mut self.map,
            &mut self.entities,
            &self.event_bus.bus,
            self.event_bus.max_events,
            self.event_bus.bus_tail,
        );
        proof {
            let cap = self.event_bus.max_events as int;
            vstd::arithmetic::div_mod::lemma_mod_bound(
                old(self).processors.audio.event_bus_reader.head + 1,
                cap,
            );
            vstd::arithmetic::div_mod::lemma_mod_bound(
                old(self).processors.responder.event_bus_reader.head + 1,
                cap,
            );
            vstd::arithmetic::div_mod::lemma_mod_bound(
                old(self).processors.logger.event_bus_reader.head + 1,
                cap,
            );
            if self.event_bus.bus@.len() < cap {
                if old(self).processors.audio.event_bus_reader.head + 1 < cap {
                    vstd::arithmetic::div_mod::lemma_small_mod(
                        (old(self).processors.audio.event_bus_reader.head + 1) as nat,
                        cap as nat,
                    );
                }
                if old(self).processors.responder.event_bus_reader.head + 1 < cap {
                    vstd::arithmetic::div_mod::lemma_small_mod(
                        (old(self).processors.responder.event_bus_reader.head + 1) as nat,
                        cap as nat,
                    );
                }
                if old(self).processors.logger.event_bus_reader.head + 1 < cap {
                    vstd::arithmetic::div_mod::lemma_small_mod(
                        (old(self).processors.logger.event_bus_reader.head + 1) as nat,
                        cap as nat,
                    );
                }
            }
        }
        cue
    }

    /// Raises the player one level when their xp has reached the current
    /// threshold; the caller then owes them an upgrade choice.
    pub fn check_for_level_up(&mut self) -> (leveled: bool)
        requires
            old(self).entities@.len() >= 1,
            fits_i32(
                LEVEL_UP_BASE + LEVEL_UP_FACTOR as int * old(self).entities@[PLAYER as int].level,
            ),
            fits_i32(old(self).entities@[PLAYER as int].level + 1),
        ensures
            ({
                let player = old(self).entities@[PLAYER as int];
                let threshold = LEVEL_UP_BASE + LEVEL_UP_FACTOR as int * player.level;
                let xp = match player.fighter {
                    Some(f) => f.xp as int,
                    None => 0,
                };
                if xp >= threshold {
                    &&& leveled
                    &&& final(self).entities@ == old(self).entities@.update(
                        PLAYER as int,
                        Entity { level: (player.level + 1) as i32, ..player },
                    )
                } else {
                    &&& !leveled
                    &&& *final(self) == *old(self)
                }
            }),
            *final(self) == (GameEngine { entities: final(self).entities, ..*old(self) }),
    {
        let level = self.entities[PLAYER].level;
        let level_up_xp = (LEVEL_UP_BASE as i64 + LEVEL_UP_FACTOR as i64 * level as i64) as i32;
        let xp = match &self.entities[PLAYER].fighter {
            Some(f) => f.xp,
            None => 0,
        };
        if xp >= level_up_xp {
            let player = &mut self.entities[PLAYER];
            player.level = player.level + 1;
            true
        } else {
            false
        }
    }

    /// Applies the chosen upgrade after a level-up and pays the threshold
    /// that triggered it (the one for the previous level) out of the
    /// player's xp.
    pub fn apply_level_up_choice(&mut self, choice: UpgradeChoice)
        requires
            old(self).entities@.len() >= 1,
            old(self).entities@[PLAYER as int].fighter is Some,
            fits_i32(
                LEVEL_UP_BASE + LEVEL_UP_FACTOR as int * (old(
                    self,
                ).entities@[PLAYER as int].level - 1),
            ),
            ({
                let f = old(self).entities@[PLAYER as int].fighter->Some_0;
                let threshold = LEVEL_UP_BASE + LEVEL_UP_FACTOR as int * (old(
                    self,
                ).entities@[PLAYER as int].level - 1);
                &&& fits_i32(f.xp - threshold)
                &&& (choice is Constitution ==> fits_i32(f.base_max_hp + 20) && fits_i32(f.hp + 20))
                &&& (choice is Strength ==> fits_i32(f.base_power + 1))
                &&& (choice is Agility ==> fits_i32(f.base_defense + 1))
            }),
        ensures
            ({
                let player = old(self).entities@[PLAYER as int];
                let f = player.fighter->Some_0;
                let threshold = LEVEL_UP_BASE + LEVEL_UP_FACTOR as int * (player.level - 1);
                let upgraded = match choice {
                    UpgradeChoice::Constitution => crate::fighter::Fighter {
                        base_max_hp: (f.base_max_hp + 20) as i32,
                        hp: (f.hp + 20) as i32,
                        ..f
                    },
                    UpgradeChoice::Strength => crate::fighter::Fighter {
                        base_power: (f.base_power + 1) as i32,
                        ..f
                    },
                    UpgradeChoice::Agility => crate::fighter::Fighter {
                        base_defense: (f.base_defense + 1) as i32,
                        ..f
                    },
                };
                final(self).entities@ == old(self).entities@.update(
                    PLAYER as int,
                    Entity {
                        fighter: Some(
                            crate::fighter::Fighter { xp: (f.xp - threshold) as i32, ..upgraded },
                        ),
                        ..player
                    },
                )
            }),
            *final(self) == (GameEngine { entities: final(self).entities, ..*old(self) }),
    {
        let level = self.entities[PLAYER].level;
        let level_up_xp = (LEVEL_UP_BASE as i64 + LEVEL_UP_FACTOR as i64 * (level as i64 - 1))
            as i32;
        let player = &mut self.entities[PLAYER];
        match &mut player.fighter {
            Some(fighter) => {
                match choice {
                    UpgradeChoice::Constitution => {
                        fighter.base_max_hp = fighter.base_max_hp + 20;
                        fighter.hp = fighter.hp + 20;
                    },
                    UpgradeChoice::Strength => {
                        fighter.base_power = fighter.base_power + 1;
                    },
                    UpgradeChoice::Agility => {
                        fighter.base_defense = fighter.base_defense + 1;
                    },
                }
                fighter.xp = fighter.xp - level_up_xp;
            },
            None => {
                proof {
                    assert(false);
                }
            },
        }
    }
}

} // verus!
