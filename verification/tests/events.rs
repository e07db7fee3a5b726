use roguelike_core::entity::Entity;
use roguelike_core::color::Rgb;
use roguelike_core::event::{EventBus, EventData, EventType, GameEvent};
use roguelike_core::processors::{
    AudioEventProcessor, EventLogProcessor, GameOccurrenceEventProcessor,
};

fn ev(t: EventType) -> GameEvent {
    GameEvent::from_type(t)
}

#[test]
fn bus_keeps_fifo_order_within_capacity() {
    // N <= capacity events land in slots 0..N in push order
    let mut bus = EventBus::new(4);
    bus.add_event(ev(EventType::PlayerMove));
    bus.add_event(ev(EventType::PlayerAttack));
    bus.add_event(ev(EventType::MonsterMove));
    assert_eq!(bus.bus.len(), 3);
    assert_eq!(bus.bus_tail, 3);
    assert_eq!(bus.bus[0].event_type, EventType::PlayerMove);
    assert_eq!(bus.bus[1].event_type, EventType::PlayerAttack);
    assert_eq!(bus.bus[2].event_type, EventType::MonsterMove);

    // a single reader walking from slot 0 sees them first-in first-out
    let mut seen = Vec::new();
    let mut head: usize = 0;
    while head != bus.bus_tail {
        seen.push(bus.bus[head].event_type);
        head = (head + 1) % bus.max_events;
    }
    assert_eq!(
        seen,
        vec![
            EventType::PlayerMove,
            EventType::PlayerAttack,
            EventType::MonsterMove
        ]
    );
}

#[test]
fn bus_overwrites_exactly_the_oldest() {
    // capacity + 1 pushes overwrite slot 0 only
    let mut bus = EventBus::new(3);
    bus.add_event(ev(EventType::PlayerMove));
    bus.add_event(ev(EventType::PlayerAttack));
    bus.add_event(ev(EventType::MonsterMove));
    assert_eq!(bus.bus_tail, 0);
    bus.add_event(ev(EventType::BossDie));
    assert_eq!(bus.bus.len(), 3);
    assert_eq!(bus.bus[0].event_type, EventType::BossDie);
    assert_eq!(bus.bus[1].event_type, EventType::PlayerAttack);
    assert_eq!(bus.bus[2].event_type, EventType::MonsterMove);
    assert_eq!(bus.bus_tail, 1);
}

#[test]
fn event_payload_lookup_and_flattening() {
    let mut data: Vec<(String, EventData)> = Vec::new();
    data.push(("where".to_string(), EventData::TupleI32I32(3, -4)));
    data.push(("who".to_string(), EventData::String("orc".to_string())));
    data.push(("hurt".to_string(), EventData::I32(-12)));
    data.push(("done".to_string(), EventData::Boolean(true)));
    let e = GameEvent::from_type_with_data(EventType::EntityAttacked, data);

    assert_eq!(e.get_data("who"), Some(&EventData::String("orc".to_string())));
    assert_eq!(e.get_data("missing"), None);

    let flat = e.get_data_as_flat_hashmap();
    assert_eq!(flat.len(), 4);
    assert_eq!(flat[0].0, "where");
    assert_eq!(flat[0].1, "(3,-4)");
    assert_eq!(flat[1].1, "orc");
    assert_eq!(flat[2].1, "-12");
    assert_eq!(flat[3].1, "true");
}

#[test]
fn audio_processor_names_cues() {
    let mut p = AudioEventProcessor::new();
    let mut bus_vec = Vec::new();
    bus_vec.push(ev(EventType::PlayerAttack));
    bus_vec.push(ev(EventType::PlayerMove));
    bus_vec.push(ev(EventType::MonsterDie));
    let mut map: Vec<Vec<roguelike_core::tile::Tile>> = Vec::new();
    let mut entities: Vec<Entity> = Vec::new();

    // one event consumed per call, in cursor order
    assert_eq!(
        p.process(&mut map, &mut entities, &bus_vec, 32, 3),
        Some("punch".to_string())
    );
    assert_eq!(p.event_bus_reader.head, 1);
    assert_eq!(p.process(&mut map, &mut entities, &bus_vec, 32, 3), None);
    assert_eq!(
        p.process(&mut map, &mut entities, &bus_vec, 32, 3),
        Some("monster_die1".to_string())
    );
    // nothing pending: no cue and no cursor move
    assert_eq!(p.process(&mut map, &mut entities, &bus_vec, 32, 3), None);
    assert_eq!(p.event_bus_reader.head, 3);
}

#[test]
fn log_processor_formats_attacks() {
    let mut p = EventLogProcessor::new();
    let mut data: Vec<(String, EventData)> = Vec::new();
    data.push(("target_name".to_string(), EventData::String("orc".to_string())));
    data.push(("target_pos".to_string(), EventData::TupleI32I32(3, 4)));
    data.push(("attacker_name".to_string(), EventData::String("hero".to_string())));
    data.push(("attacker_pos".to_string(), EventData::TupleI32I32(1, 2)));
    data.push(("damage".to_string(), EventData::I32(5)));
    data.push(("killed".to_string(), EventData::Boolean(false)));
    let mut bus_vec = Vec::new();
    bus_vec.push(GameEvent::from_type_with_data(EventType::EntityAttacked, data));
    let mut map: Vec<Vec<roguelike_core::tile::Tile>> = Vec::new();
    let mut entities: Vec<Entity> = Vec::new();

    p.process(&mut map, &mut entities, &bus_vec, 32, 1);
    assert_eq!(p.log_len(), 1);
    assert_eq!(
        p.log_line(0),
        "entity with name hero at (1,2) attacked entity with name orc at (3,4) for 5 damage"
    );
    assert_eq!(p.event_bus_reader.head, 1);
}

#[test]
fn log_processor_notes_malformed_payloads() {
    let mut p = EventLogProcessor::new();
    let mut bus_vec = Vec::new();
    bus_vec.push(ev(EventType::EntityAttacked));
    let mut map: Vec<Vec<roguelike_core::tile::Tile>> = Vec::new();
    let mut entities: Vec<Entity> = Vec::new();
    p.process(&mut map, &mut entities, &bus_vec, 32, 1);
    assert_eq!(p.log_len(), 1);
    assert_eq!(p.log_line(0), "EntityAttacked event is missing payload data");
    // the event was still consumed
    assert_eq!(p.event_bus_reader.head, 1);
}

#[test]
fn responder_spawns_stairs_on_boss_death() {
    let mut p = GameOccurrenceEventProcessor::new();
    let mut data: Vec<(String, EventData)> = Vec::new();
    data.push(("position".to_string(), EventData::TupleI32I32(10, 20)));
    let mut bus_vec = Vec::new();
    bus_vec.push(GameEvent::from_type_with_data(EventType::BossDie, data));

    let mut map: Vec<Vec<roguelike_core::tile::Tile>> = Vec::new();
    let mut entities: Vec<Entity> = Vec::new();
    entities.push(Entity::new(0, 0, '@', Rgb { r: 0, g: 0, b: 0 }, "player", true));

    p.process(&mut map, &mut entities, &bus_vec, 32, 1);
    assert_eq!(entities.len(), 2);
    let stairs = &entities[1];
    assert_eq!(stairs.name, "stairs");
    assert_eq!((stairs.x, stairs.y), (10, 19));
    assert!(stairs.always_visible);
    assert!(!stairs.blocks);
    assert_eq!(p.event_bus_reader.head, 1);
}

#[test]
fn engine_drains_one_event_per_processor_per_turn() {
    let mut game = roguelike_core::setup::new_game();
    let world_len = game.entities.len();
    game.add_event(ev(EventType::PlayerAttack));
    game.add_event(ev(EventType::MonsterMove));

    // each processor consumes exactly one pending event per call
    let cue = game.process_events();
    assert_eq!(cue, Some("punch".to_string()));
    assert_eq!(game.processors.audio.event_bus_reader.head, 1);
    assert_eq!(game.processors.responder.event_bus_reader.head, 1);
    assert_eq!(game.processors.logger.event_bus_reader.head, 1);
    assert_eq!(game.entities.len(), world_len);

    let cue = game.process_events();
    assert_eq!(cue, None);
    assert_eq!(game.processors.audio.event_bus_reader.head, 2);

    // nothing pending: cursors stay put
    let cue = game.process_events();
    assert_eq!(cue, None);
    assert_eq!(game.processors.audio.event_bus_reader.head, 2);
}

#[test]
fn responder_warns_on_missing_payload() {
    let mut p = GameOccurrenceEventProcessor::new();
    let mut bus_vec = Vec::new();
    bus_vec.push(ev(EventType::BossDie));
    let mut map: Vec<Vec<roguelike_core::tile::Tile>> = Vec::new();
    let mut entities: Vec<Entity> = Vec::new();
    p.process(&mut map, &mut entities, &bus_vec, 32, 1);
    // the world stays untouched, the event is consumed, and a warning lands
    assert_eq!(entities.len(), 0);
    assert_eq!(p.event_bus_reader.head, 1);
    assert_eq!(p.warnings.len(), 1);
    assert_eq!(
        p.warnings[0],
        "WARNING: attempted to pull position data, but it wasn't on the event"
    );
}

#[test]
fn responder_warns_on_wrong_payload_kind() {
    let mut p = GameOccurrenceEventProcessor::new();
    let mut data: Vec<(String, EventData)> = Vec::new();
    data.push(("position".to_string(), EventData::String("nowhere".to_string())));
    let mut bus_vec = Vec::new();
    bus_vec.push(GameEvent::from_type_with_data(EventType::BossDie, data));
    let mut map: Vec<Vec<roguelike_core::tile::Tile>> = Vec::new();
    let mut entities: Vec<Entity> = Vec::new();
    p.process(&mut map, &mut entities, &bus_vec, 32, 1);
    assert_eq!(entities.len(), 0);
    assert_eq!(p.event_bus_reader.head, 1);
    assert_eq!(p.warnings.len(), 1);
    assert_eq!(
        p.warnings[0],
        "WARNING: attempted to pull position data, but it wasn't of the correct type"
    );
}
