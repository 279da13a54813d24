use dodger::geom::Vec2i;
use dodger::input::{input_for_key, Key};
use dodger::render::BoardRenderer;
use dodger::world::{GameInput, World};

fn frame_of(world: &World) -> String {
    let mut renderer = BoardRenderer {};
    let mut buffer = String::new();
    renderer.draw(world, &mut buffer);
    buffer
}

#[test]
fn frame_of_live_world_has_one_caret() {
    let world = World {
        w: 8,
        h: 8,
        player: Some(Vec2i { x: 4, y: 7 }),
        enemies: Vec::new(),
    };
    let mut expected = String::new();
    for _ in 0..7 {
        expected.push_str("        \n");
    }
    expected.push_str("    ^   \n");
    assert_eq!(frame_of(&world), expected);
}

#[test]
fn frame_of_dead_world_appends_the_trailers() {
    let world = World {
        w: 8,
        h: 8,
        player: None,
        enemies: Vec::new(),
    };
    let mut expected = String::new();
    for _ in 0..8 {
        expected.push_str("        \n");
    }
    expected.push_str("GAMEOVER\n");
    expected.push_str("PressESC\n");
    assert_eq!(frame_of(&world), expected);
}

#[test]
fn frame_shows_enemies_as_o() {
    let world = World {
        w: 4,
        h: 3,
        player: Some(Vec2i { x: 1, y: 2 }),
        enemies: vec![Vec2i { x: 2, y: 0 }, Vec2i { x: 0, y: 1 }],
    };
    assert_eq!(frame_of(&world), "  o \no   \n ^  \n");
}

#[test]
fn enemy_sharing_the_player_cell_wins_the_glyph() {
    // The transient pre-collision overlap: the enemy overlay is laid down
    // after the player, so the enemy glyph shows.
    let world = World {
        w: 3,
        h: 2,
        player: Some(Vec2i { x: 1, y: 1 }),
        enemies: vec![Vec2i { x: 1, y: 1 }],
    };
    assert_eq!(frame_of(&world), "   \n o \n");
}

#[test]
fn draw_appends_to_the_buffer() {
    let world = World {
        w: 2,
        h: 1,
        player: Some(Vec2i { x: 0, y: 0 }),
        enemies: Vec::new(),
    };
    let mut renderer = BoardRenderer {};
    let mut buffer = String::from("head:");
    renderer.draw(&world, &mut buffer);
    assert_eq!(buffer, "head:^ \n");
}

#[test]
fn keys_map_to_their_commands() {
    assert_eq!(
        input_for_key(Key::Left),
        Some(GameInput::Move { dir: Vec2i { x: -1, y: 0 } })
    );
    assert_eq!(
        input_for_key(Key::Right),
        Some(GameInput::Move { dir: Vec2i { x: 1, y: 0 } })
    );
    assert_eq!(input_for_key(Key::Up), Some(GameInput::Idle));
    assert_eq!(input_for_key(Key::Escape), Some(GameInput::Restart));
    assert_eq!(input_for_key(Key::Other), None);
}
