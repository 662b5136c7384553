use cougr_games::snake::{
    check_food_collision, check_self_collision, grow_snake, move_snake, spawn_food, update_direction, Direction,
    DirectionComponent, Food, Position, SnakeContract, SnakeGame, SnakeHead, SnakeSegment, SnakeWorld, DEFAULT_GRID_SIZE,
};

#[test]
fn test_direction_opposite() {
    assert!(Direction::Up.is_opposite(&Direction::Down));
    assert!(Direction::Down.is_opposite(&Direction::Up));
    assert!(Direction::Left.is_opposite(&Direction::Right));
    assert!(Direction::Right.is_opposite(&Direction::Left));
    assert!(!Direction::Up.is_opposite(&Direction::Left));
    assert!(!Direction::Up.is_opposite(&Direction::Right));
}

#[test]
fn test_direction_codes_round_trip() {
    for code in 0u8..4 {
        assert_eq!(Direction::from_u8(code).unwrap().to_u8(), code);
    }
    assert_eq!(Direction::from_u8(4), None);
    assert_eq!(Direction::Up.delta(), (0, -1));
    assert_eq!(Direction::Down.delta(), (0, 1));
    assert_eq!(Direction::Left.delta(), (-1, 0));
    assert_eq!(Direction::Right.delta(), (1, 0));
    assert_eq!(DirectionComponent::new(Direction::Left).direction, Direction::Left);
    assert_eq!(SnakeSegment::new(5).index, 5);
    assert_eq!(Position::new(10, 20), Position { x: 10, y: 20 });
}

#[test]
fn lib_test_init_game() {
    let g = SnakeContract::init_game();
    assert_eq!(SnakeContract::get_score(&g), 0);
    assert!(!SnakeContract::check_game_over(&g));
    assert_eq!(SnakeContract::get_snake_length(&g), 1);
    assert_eq!(SnakeContract::get_grid_size(&g), DEFAULT_GRID_SIZE);
    let (x, y) = SnakeContract::get_head_pos(&g);
    assert_eq!(x, DEFAULT_GRID_SIZE / 2);
    assert_eq!(y, DEFAULT_GRID_SIZE / 2);
    let (fx, fy) = SnakeContract::get_food_pos(&g);
    assert!((0..DEFAULT_GRID_SIZE).contains(&fx));
    assert!((0..DEFAULT_GRID_SIZE).contains(&fy));
}

#[test]
fn test_init_game_with_custom_size() {
    let g = SnakeContract::init_game_with_size(20);
    assert_eq!(SnakeContract::get_grid_size(&g), 20);
    let (x, y) = SnakeContract::get_head_pos(&g);
    assert_eq!(x, 10);
    assert_eq!(y, 10);
}

#[test]
fn test_change_direction() {
    let mut g = SnakeContract::init_game();
    assert!(SnakeContract::change_direction(&mut g, 0));
    assert!(!SnakeContract::change_direction(&mut g, 1));
    assert!(SnakeContract::change_direction(&mut g, 3));
}

#[test]
fn lib_test_move_snake() {
    let mut g = SnakeContract::init_game();
    let (x1, y1) = SnakeContract::get_head_pos(&g);
    SnakeContract::update_tick(&mut g);
    let (x2, y2) = SnakeContract::get_head_pos(&g);
    assert_eq!(x2, x1 + 1);
    assert_eq!(y2, y1);
}

#[test]
fn lib_test_wall_collision() {
    let mut g = SnakeContract::init_game_with_size(5);
    for _ in 0..10 {
        SnakeContract::update_tick(&mut g);
        if SnakeContract::check_game_over(&g) {
            break;
        }
    }
    assert!(SnakeContract::check_game_over(&g));
}

fn steer_towards_food(g: &mut SnakeGame) {
    let (fx, fy) = SnakeContract::get_food_pos(g);
    let (hx, hy) = SnakeContract::get_head_pos(g);
    if fx > hx {
        SnakeContract::change_direction(g, 3);
    } else if fx < hx {
        SnakeContract::change_direction(g, 2);
    } else if fy > hy {
        SnakeContract::change_direction(g, 1);
    } else if fy < hy {
        SnakeContract::change_direction(g, 0);
    }
}

#[test]
fn test_eat_food_and_grow() {
    let mut g = SnakeContract::init_game_with_size(20);
    let initial_length = SnakeContract::get_snake_length(&g);
    let initial_score = SnakeContract::get_score(&g);
    for _ in 0..100 {
        if SnakeContract::get_score(&g) > initial_score {
            break;
        }
        steer_towards_food(&mut g);
        SnakeContract::update_tick(&mut g);
        if SnakeContract::check_game_over(&g) {
            break;
        }
    }
    if SnakeContract::get_score(&g) > initial_score {
        assert!(SnakeContract::get_snake_length(&g) > initial_length);
    }
}

#[test]
fn lib_test_self_collision() {
    let mut g = SnakeContract::init_game_with_size(20);
    for _ in 0..200 {
        steer_towards_food(&mut g);
        SnakeContract::update_tick(&mut g);
        if SnakeContract::check_game_over(&g) {
            break;
        }
        if SnakeContract::get_snake_length(&g) >= 5 {
            SnakeContract::change_direction(&mut g, 0);
            SnakeContract::update_tick(&mut g);
            if SnakeContract::check_game_over(&g) {
                break;
            }
            SnakeContract::change_direction(&mut g, 2);
            SnakeContract::update_tick(&mut g);
            if SnakeContract::check_game_over(&g) {
                break;
            }
            SnakeContract::change_direction(&mut g, 1);
            SnakeContract::update_tick(&mut g);
            if SnakeContract::check_game_over(&g) {
                break;
            }
        }
    }
}

#[test]
fn lib_test_cannot_play_after_game_over() {
    let mut g = SnakeContract::init_game_with_size(3);
    for _ in 0..10 {
        SnakeContract::update_tick(&mut g);
        if SnakeContract::check_game_over(&g) {
            break;
        }
    }
    assert!(SnakeContract::check_game_over(&g));
    let (x1, y1) = SnakeContract::get_head_pos(&g);
    let score1 = SnakeContract::get_score(&g);
    SnakeContract::change_direction(&mut g, 0);
    SnakeContract::update_tick(&mut g);
    let (x2, y2) = SnakeContract::get_head_pos(&g);
    let score2 = SnakeContract::get_score(&g);
    assert_eq!(x1, x2);
    assert_eq!(y1, y2);
    assert_eq!(score1, score2);
}

#[test]
fn test_get_snake_positions() {
    let mut g = SnakeContract::init_game_with_size(20);
    assert_eq!(SnakeContract::get_snake_positions(&g).len(), 1);
    for _ in 0..50 {
        steer_towards_food(&mut g);
        SnakeContract::update_tick(&mut g);
        if SnakeContract::check_game_over(&g) || SnakeContract::get_snake_length(&g) > 3 {
            break;
        }
    }
    let positions = SnakeContract::get_snake_positions(&g);
    assert_eq!(positions.len() as u32, SnakeContract::get_snake_length(&g));
}

#[test]
fn test_food_respawns_after_eating() {
    let mut g = SnakeContract::init_game_with_size(20);
    for _ in 0..100 {
        if SnakeContract::get_score(&g) > 0 {
            break;
        }
        steer_towards_food(&mut g);
        SnakeContract::update_tick(&mut g);
        if SnakeContract::check_game_over(&g) {
            break;
        }
    }
    if SnakeContract::get_score(&g) > 0 {
        let new_food_pos = SnakeContract::get_food_pos(&g);
        assert!(new_food_pos.0 >= 0 && new_food_pos.0 < 20);
        assert!(new_food_pos.1 >= 0 && new_food_pos.1 < 20);
        assert!(new_food_pos != (-1, -1));
    }
}

#[test]
fn sandbox_snake_movement_scenario() {
    let mut g = SnakeContract::init_game();
    let (x1, y1) = SnakeContract::get_head_pos(&g);
    SnakeContract::update_tick(&mut g);
    assert_eq!(SnakeContract::get_head_pos(&g), (x1 + 1, y1));
    assert!(SnakeContract::change_direction(&mut g, 0));
    SnakeContract::update_tick(&mut g);
    assert_eq!(SnakeContract::get_head_pos(&g), (x1 + 1, y1 - 1));
    assert!(SnakeContract::change_direction(&mut g, 2));
    SnakeContract::update_tick(&mut g);
    assert_eq!(SnakeContract::get_head_pos(&g), (x1, y1 - 1));
}

fn setup_snake() -> SnakeWorld {
    SnakeWorld {
        next_entity_id: 3,
        head_id: 1,
        head: Position::new(5, 5),
        direction: Direction::Right,
        segments: vec![Position::new(4, 5)],
        food: None,
    }
}

#[test]
fn systems_test_move_snake() {
    let mut world = setup_snake();
    let new_pos = move_snake(&mut world, 10);
    assert!(new_pos.is_some());
    assert_eq!(new_pos.unwrap(), Position::new(6, 5));
    assert_eq!(world.segments, vec![Position::new(5, 5)]);
}

#[test]
fn systems_test_wall_collision() {
    let mut world = SnakeWorld {
        next_entity_id: 2,
        head_id: 1,
        head: Position::new(9, 5),
        direction: Direction::Right,
        segments: Vec::new(),
        food: None,
    };
    assert!(move_snake(&mut world, 10).is_none());
    assert_eq!(world.head, Position::new(9, 5));
}

#[test]
fn systems_test_self_collision() {
    let world = SnakeWorld {
        next_entity_id: 3,
        head_id: 1,
        head: Position::new(5, 5),
        direction: Direction::Right,
        segments: vec![Position::new(5, 5)],
        food: None,
    };
    assert!(check_self_collision(&world));
}

#[test]
fn test_food_collision() {
    let mut world = setup_snake();
    world.food = Some((3, Position::new(5, 5)));
    world.next_entity_id = 4;
    assert_eq!(check_food_collision(&world), Some(3));
    world.food = Some((3, Position::new(6, 5)));
    assert_eq!(check_food_collision(&world), None);
}

#[test]
fn test_grow_snake() {
    let mut world = setup_snake();
    let initial_segments = world.segments.len();
    grow_snake(&mut world);
    assert_eq!(world.segments.len(), initial_segments + 1);
    assert_eq!(world.segments[1], Position::new(4, 5));
}

#[test]
fn test_update_direction() {
    let mut world = setup_snake();
    assert!(update_direction(&mut world, Direction::Up));
    assert!(!update_direction(&mut world, Direction::Down));
}

#[test]
fn test_spawn_food() {
    let mut world = setup_snake();
    spawn_food(&mut world, 1, 10);
    assert!(world.food.is_some());
    // tick 1, attempt 0: hash 17, x = 17 % 10, y = (17 * 13) % 10
    assert_eq!(world.food.unwrap().1, Position::new(7, 1));
}

#[test]
fn test_spawn_food_skips_the_snake() {
    let mut world = setup_snake();
    world.head = Position::new(7, 1);
    spawn_food(&mut world, 1, 10);
    // attempt 1: hash 17 ^ 31 = 14, x = 4, y = 182 % 10 = 2
    assert_eq!(world.food.unwrap().1, Position::new(4, 2));
}

#[test]
fn test_body_follows_head() {
    let mut world = setup_snake();
    grow_snake(&mut world);
    move_snake(&mut world, 10);
    assert_eq!(world.head, Position::new(6, 5));
    assert_eq!(world.segments, vec![Position::new(5, 5), Position::new(4, 5)]);
}

#[test]
fn test_invalid_direction_code_is_refused() {
    let mut g = SnakeContract::init_game();
    assert!(!SnakeContract::change_direction(&mut g, 7));
    assert!(!SnakeContract::change_direction(&mut g, 256));
    assert!(SnakeContract::change_direction(&mut g, 0));
}

#[test]
fn test_position_serialization() {
    let pos = Position::new(10, 20);
    let serialized = pos.serialize();
    let deserialized = Position::deserialize(&serialized).unwrap();
    assert_eq!(pos.x, deserialized.x);
    assert_eq!(pos.y, deserialized.y);
}

#[test]
fn test_direction_serialization() {
    let dir = DirectionComponent::new(Direction::Right);
    let serialized = dir.serialize();
    let deserialized = DirectionComponent::deserialize(&serialized).unwrap();
    assert_eq!(dir.direction, deserialized.direction);
}

#[test]
fn test_snake_head_serialization() {
    let head = SnakeHead;
    let serialized = head.serialize();
    let deserialized = SnakeHead::deserialize(&serialized).unwrap();
    assert!(matches!(deserialized, SnakeHead));
}

#[test]
fn test_snake_segment_serialization() {
    let segment = SnakeSegment::new(5);
    let serialized = segment.serialize();
    let deserialized = SnakeSegment::deserialize(&serialized).unwrap();
    assert_eq!(segment.index, deserialized.index);
}

#[test]
fn test_food_serialization() {
    let food = Food;
    let serialized = food.serialize();
    let deserialized = Food::deserialize(&serialized).unwrap();
    assert!(matches!(deserialized, Food));
}

#[test]
fn snake_component_bytes_exact() {
    assert_eq!(Position::new(-1, 258).serialize(), vec![255, 255, 255, 255, 0, 0, 1, 2]);
    assert_eq!(Position::deserialize(&vec![0, 0, 0, 3, 255, 255, 255, 254]), Some(Position::new(3, -2)));
    assert_eq!(Position::deserialize(&vec![0; 7]), None);
    assert!(DirectionComponent::deserialize(&vec![4]).is_none());
    assert!(DirectionComponent::deserialize(&vec![1, 1]).is_none());
    assert_eq!(DirectionComponent::deserialize(&vec![2]).unwrap().direction, Direction::Left);
    assert_eq!(SnakeSegment::new(0x01020304).serialize(), vec![1, 2, 3, 4]);
    assert!(SnakeSegment::deserialize(&vec![0; 5]).is_none());
    assert!(Food::deserialize(&Vec::new()).is_none());
    assert!(SnakeHead::deserialize(&vec![7]).is_some());
}
