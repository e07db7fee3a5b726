use roguelike_core::camera::Camera;
use roguelike_core::equipment::Slot;
use roguelike_core::fmt;
use roguelike_core::namegen;
use roguelike_core::util::mut_two;

#[test]
fn decimal_formatting_is_exact() {
    assert_eq!(fmt::u64_string(0), "0");
    assert_eq!(fmt::u64_string(7), "7");
    assert_eq!(fmt::u64_string(10), "10");
    assert_eq!(fmt::u64_string(90210), "90210");
    assert_eq!(fmt::i32_string(0), "0");
    assert_eq!(fmt::i32_string(-1), "-1");
    assert_eq!(fmt::i32_string(i32::MIN), "-2147483648");
    assert_eq!(fmt::i32_string(i32::MAX), "2147483647");
    assert_eq!(fmt::pos_string(-3, 44), "(-3,44)");
    assert_eq!(fmt::bool_string(true), "true");
    assert_eq!(fmt::bool_string(false), "false");
}

#[test]
fn slot_names() {
    assert_eq!(Slot::LeftHand.name(), "left hand");
    assert_eq!(Slot::RightHand.name(), "right hand");
    assert_eq!(Slot::Head.name(), "head");
}

#[test]
fn capitalize_uppercases_the_first_letter() {
    assert_eq!(namegen::capitalize("hello"), "Hello");
    assert_eq!(namegen::capitalize("Already"), "Already");
    assert_eq!(namegen::capitalize("x"), "X");
    assert_eq!(namegen::capitalize(""), "");
    assert_eq!(namegen::capitalize("9lives"), "9lives");
}

#[test]
fn generated_names_are_capitalized_words() {
    for _ in 0..20 {
        let name = namegen::generate_artefact_name();
        assert!(name.len() >= 2);
        assert!(name.chars().next().unwrap().is_ascii_uppercase());
        let ogur = namegen::generate_ogur_name();
        assert!(ogur.len() >= 2);
        assert!(ogur.chars().next().unwrap().is_ascii_uppercase());
    }
}

#[test]
fn camera_transforms_round_trip() {
    let mut camera = Camera {
        x: 0,
        y: 0,
        width: 80,
        height: 75,
        map_width: 80,
        map_height: 68,
    };
    let focus = roguelike_core::entity::Entity::new(
        30,
        40,
        '@',
        roguelike_core::color::Rgb { r: 0, g: 0, b: 0 },
        "player",
        true,
    );
    camera.update(&focus);
    assert_eq!((camera.x, camera.y), (-30 + 40, -40 + 37));
    let (cx, cy) = camera.get_pos_in_camera(30, 40);
    assert_eq!(camera.get_map_pos(cx, cy), (30, 40));
    assert!(camera.in_bounds(0, 0));
    assert!(!camera.in_bounds(-1, 0));
    assert!(!camera.in_bounds(80, 0));
}

#[test]
fn mut_two_hands_out_disjoint_references() {
    let mut items: Vec<i32> = vec![10, 20, 30];
    {
        let (a, b) = mut_two(0, 2, items.as_mut_slice());
        assert_eq!((*a, *b), (10, 30));
        *a = 11;
        *b = 33;
    }
    assert_eq!(items, vec![11, 20, 33]);
    {
        let (a, b) = mut_two(2, 1, items.as_mut_slice());
        assert_eq!((*a, *b), (33, 20));
        *a = 1;
        *b = 2;
    }
    assert_eq!(items, vec![11, 2, 1]);
}

#[test]
fn tiles_fresh_flags() {
    let g = roguelike_core::tile::Tile::ground();
    assert!(!g.blocked);
    assert!(!g.block_sight);
    assert!(!g.explored);
    assert_eq!(g.tile_type, roguelike_core::tile::TileType::Ground);
    let w = roguelike_core::tile::Tile::wall();
    assert!(w.blocked);
    assert!(w.block_sight);
    assert_eq!(w.tile_type, roguelike_core::tile::TileType::Wall);
}

#[test]
fn split_str_wraps_greedily() {
    let lines = roguelike_core::string_splitter::split_str("the quick brown fox jumps", 10);
    // each word lands behind one space; a line closes once it exceeds ten
    // characters, and the remainder stays on a final short line
    assert_eq!(lines, vec![" the quick brown", " fox jumps"]);
}

#[test]
fn split_str_on_short_text() {
    let lines = roguelike_core::string_splitter::split_str("hi there", 40);
    assert_eq!(lines, vec![" hi there"]);
    let empty: Vec<String> = roguelike_core::string_splitter::split_str("   ", 40);
    assert_eq!(empty.len(), 0);
}

#[test]
fn message_log_records_in_order() {
    let mut log = roguelike_core::messages::Messages::new();
    assert_eq!(log.len(), 0);
    log.add("first".to_string(), roguelike_core::color::red());
    log.add("second".to_string(), roguelike_core::color::blue());
    assert_eq!(log.len(), 2);
    assert_eq!(log.get(0).0, "first");
    assert_eq!(log.get(1).0, "second");
    assert_eq!(log.get(1).1, roguelike_core::color::blue());
}
