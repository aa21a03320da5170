use snakez::Direction;
use snakez::Game;
use snakez::Vector2i;
use snakez::game::ActionStep;
use snakez::game::INITIAL_LENGTH;
use snakez::grid::GridCell;
use snakez::grid::PizzaRec;
use snakez::grid::SnakeBodyPart;
use snakez::grid::SnakeRec;

// Test each new player gets new index
#[test]
fn test_register_player() {
    let mut game = Game::new(Vector2i::new(10, 10));
    let player1 = game.register_player();
    let player2 = game.register_player();
    let player3 = game.register_player();
    assert_eq!(player1, 0);
    assert_eq!(player2, 1);
    assert_eq!(player3, 2);
    // Test that snake is created
    assert!(game.players[player1].snake.is_some());
    assert!(game.players[player2].snake.is_some());
    assert!(game.players[player3].snake.is_some());
}

// Test calc_spawn_pos
#[test]
fn test_calc_spawn_pos() {
    let field_size = Vector2i::new(10, 10);
    let (pos, dir) = Game::calc_spawn_pos(0, 3, field_size);
    assert_eq!(pos, Vector2i::new(2, 5));
    assert_eq!(dir, Direction::MinusX);

    let (pos, dir) = Game::calc_spawn_pos(1, 3, field_size);
    assert_eq!(pos, Vector2i::new(5, 2));
    assert_eq!(dir, Direction::MinusY);

    let (pos, dir) = Game::calc_spawn_pos(2, 3, field_size);
    assert_eq!(pos, Vector2i::new(8, 5));
    assert_eq!(dir, Direction::PlusX);

    let (pos, dir) = Game::calc_spawn_pos(3, 3, field_size);
    assert_eq!(pos, Vector2i::new(5, 8));
    assert_eq!(dir, Direction::PlusY);
}

// Test num_empty_cells
#[test]
fn test_num_empty_cells() {
    let mut game = Game::new(Vector2i::new(10, 10));
    assert_eq!(game.num_empty_cells(), 100);
    game.register_player();
    assert_eq!(game.num_empty_cells(), 100 - INITIAL_LENGTH as i32);
    game.register_player();
    assert_eq!(game.num_empty_cells(), 100 - 2 * INITIAL_LENGTH as i32);
    // Register dead player
    game.register_player();
    game.players[2].snake = None;
    assert_eq!(game.num_empty_cells(), 100 - 2 * INITIAL_LENGTH as i32);

    // Add some food
    game.pizzas.push(Vector2i::new(0, 0));
    game.pizzas.push(Vector2i::new(0, 1));

    assert_eq!(game.num_empty_cells(), 100 - 2 * INITIAL_LENGTH as i32 - 2);
}

// Test generate grid
#[test]
fn test_generate_grid() {
    let mut game = Game::new(Vector2i::new(3, 3));
    let player1 = game.register_player();
    // Manually set the snake points to make it easier to test
    game.players[player1].snake.as_mut().unwrap().set_body(vec![
        Vector2i::new(0, 0),
        Vector2i::new(0, 1),
        Vector2i::new(0, 2),
    ]);
    // Create another dead player, which should have 0 effect on grid
    {
        let player2 = game.register_player();
        game.players[player2].snake = None;
    }

    // Add one pizza
    game.pizzas.push(Vector2i::new(2, 2));
    // Generate grid
    let grid = game.generate_grid();
    // Check grid
    assert_eq!(
        grid.get(0, 0),
        GridCell::Snake(SnakeRec { body_part: SnakeBodyPart::Head, player_index: player1 })
    );
    assert_eq!(
        grid.get(0, 1),
        GridCell::Snake(SnakeRec { body_part: SnakeBodyPart::Body, player_index: player1 })
    );
    assert_eq!(
        grid.get(0, 2),
        GridCell::Snake(SnakeRec { body_part: SnakeBodyPart::Tail, player_index: player1 })
    );
    assert_eq!(grid.get(1, 0), GridCell::Empty);
    assert_eq!(grid.get(1, 1), GridCell::Empty);
    assert_eq!(grid.get(1, 2), GridCell::Empty);
    assert_eq!(grid.get(2, 0), GridCell::Empty);
    assert_eq!(grid.get(2, 1), GridCell::Empty);
    assert_eq!(grid.get(2, 2), GridCell::Pizza(PizzaRec {}));
}

// Test predict_next_action
#[test]
fn test_predict_next_action() {
    // Create small 4x4 game
    let mut game = Game::new(Vector2i::new(4, 4));
    let player_index0 = game.register_player();

    // Single snake going out of bounds dies
    {
        let snake0 = game.players[player_index0].snake.as_mut().unwrap();
        snake0.set_body(vec![Vector2i::new(0, 3), Vector2i::new(0, 2)]);
        assert!(snake0.try_set_look_direction(Direction::PlusY));
        assert_eq!(game.predict_next_action(player_index0), ActionStep::Die);
    }
    // Single snake going to current tail pos: moves. This is because during the move
    // this cell will be freed
    {
        let snake0 = game.players[player_index0].snake.as_mut().unwrap();
        snake0.set_body(vec![
            Vector2i::new(1, 2),
            Vector2i::new(2, 2),
            Vector2i::new(2, 1),
            Vector2i::new(1, 1),
        ]);
        assert!(snake0.try_set_look_direction(Direction::MinusY));
        assert_eq!(game.predict_next_action(player_index0), ActionStep::Move);
    }
    // The snake that attempts to move to it's own body pos - dies
    {
        let snake0 = game.players[player_index0].snake.as_mut().unwrap();
        snake0.set_body(vec![
            Vector2i::new(1, 2),
            Vector2i::new(2, 2),
            Vector2i::new(2, 1),
            Vector2i::new(1, 1),
            Vector2i::new(0, 1),
        ]);
        assert!(snake0.try_set_look_direction(Direction::MinusY));
        assert_eq!(game.predict_next_action(player_index0), ActionStep::Die);
    }
    // Add one more small snake for further tests
    let player_index1 = game.register_player();
    {
        let snake1 = game.players[player_index1].snake.as_mut().unwrap();
        snake1.set_body(vec![Vector2i::new(3, 2), Vector2i::new(3, 1), Vector2i::new(3, 0)]);
        assert!(snake1.try_set_look_direction(Direction::PlusY));
    }
    // Add dead player. Mainly to make sure it doesn't crash. It should cause no real affects.
    {
        let player_index2 = game.register_player();
        game.players[player_index2].snake = None;
        // Dead player always hold
        assert_eq!(game.predict_next_action(player_index2), ActionStep::Hold);
    }

    // When snake tries to move to the head position of other snake - it dies
    {
        let snake0 = game.players[player_index0].snake.as_mut().unwrap();
        snake0.set_body(vec![Vector2i::new(2, 2), Vector2i::new(1, 2)]);
        assert!(snake0.try_set_look_direction(Direction::PlusX));
        assert_eq!(game.predict_next_action(player_index0), ActionStep::Die);
    }
    // When snake tries to move to the body position of other snake - it dies
    {
        let snake0 = game.players[player_index0].snake.as_mut().unwrap();
        snake0.set_body(vec![Vector2i::new(2, 3), Vector2i::new(1, 3)]);
        assert!(snake0.try_set_look_direction(Direction::PlusX));
        assert_eq!(game.predict_next_action(player_index0), ActionStep::Hold);
    }
    // When snake tries to move ot the tail position of other snake - it moves. This is because during the move
    // this position will be freed
    {
        let snake0 = game.players[player_index0].snake.as_mut().unwrap();
        snake0.set_body(vec![Vector2i::new(2, 0), Vector2i::new(1, 0)]);
        assert!(snake0.try_set_look_direction(Direction::PlusX));
        assert_eq!(game.predict_next_action(player_index0), ActionStep::Move);
    }
    // When snake competes with other snake for same position - it holds
    {
        let snake0 = game.players[player_index0].snake.as_mut().unwrap();
        snake0.set_body(vec![Vector2i::new(2, 0), Vector2i::new(1, 0)]);
        assert!(snake0.try_set_look_direction(Direction::PlusX));
        assert_eq!(game.predict_next_action(player_index0), ActionStep::Move);
    }
}

// Test move_player
#[test]
fn test_move_player() {
    // Create small 4x4 game
    let mut game = Game::new(Vector2i::new(4, 4));
    let player_index0 = game.register_player();
    {
        let snake = game.players[player_index0].snake.as_mut().unwrap();
        // Setup snake such that it can move forward 2 times
        snake.set_body(vec![Vector2i::new(0, 1), Vector2i::new(0, 0)]);
        assert!(snake.try_set_look_direction(Direction::PlusY));
    }

    // Also add one pizza
    game.pizzas.push(Vector2i::new(0, 3));
    // First move
    game.move_player(player_index0);
    // Doesn't eat pizza. Doesn't increase score
    assert_eq!(game.pizzas.len(), 1);
    assert_eq!(game.players[player_index0].score, 0);
    // Second move
    // Eats pizza and increase score
    game.move_player(player_index0);
    assert_eq!(game.pizzas.len(), 0);
    assert_eq!(game.players[player_index0].score, 1);
    // Also check final snake position
    assert_eq!(
        *game.players[player_index0].snake.as_ref().unwrap().body(),
        vec![Vector2i::new(0, 3), Vector2i::new(0, 2)]
    );
}

// One player on a 10x10 field: after one step with no turn, the head
// advances by the spawn unit vector and the tail drops, so the length
// stays 2.
#[test]
fn test_step_single_player_advances() {
    let mut game = Game::new(Vector2i::new(10, 10));
    let p = game.register_player();
    assert_eq!(
        *game.players[p].snake.as_ref().unwrap().body(),
        vec![Vector2i::new(3, 5), Vector2i::new(4, 5)]
    );
    game.step();
    assert_eq!(
        *game.players[p].snake.as_ref().unwrap().body(),
        vec![Vector2i::new(2, 5), Vector2i::new(3, 5)]
    );
    assert_eq!(game.players[p].score, 0);
}

// Two players on a 4x4 field whose predicted heads coincide: after one
// step both bodies are unchanged, and neither has died.
#[test]
fn test_step_competing_heads_hold() {
    let mut game = Game::new(Vector2i::new(4, 4));
    let p0 = game.register_player();
    let p1 = game.register_player();
    {
        let snake0 = game.players[p0].snake.as_mut().unwrap();
        snake0.set_body(vec![Vector2i::new(1, 1), Vector2i::new(0, 1)]);
        assert!(snake0.try_set_look_direction(Direction::PlusX));
    }
    {
        let snake1 = game.players[p1].snake.as_mut().unwrap();
        snake1.set_body(vec![Vector2i::new(3, 1), Vector2i::new(3, 0)]);
        assert!(snake1.try_set_look_direction(Direction::MinusX));
    }
    // Both predicted heads are (2, 1).
    assert_eq!(game.predict_next_action(p0), ActionStep::Hold);
    assert_eq!(game.predict_next_action(p1), ActionStep::Hold);
    game.step();
    assert!(game.players[p0].snake.is_some());
    assert!(game.players[p1].snake.is_some());
    assert_eq!(
        *game.players[p0].snake.as_ref().unwrap().body(),
        vec![Vector2i::new(1, 1), Vector2i::new(0, 1)]
    );
    assert_eq!(
        *game.players[p1].snake.as_ref().unwrap().body(),
        vec![Vector2i::new(3, 1), Vector2i::new(3, 0)]
    );
}

// Eating through a step: the head lands on a pizza, the score rises by
// one, the pizza leaves the pool, and the pending growth makes the next
// move keep the tail.
#[test]
fn test_step_eats_pizza_and_grows() {
    let mut game = Game::new(Vector2i::new(4, 4));
    let p = game.register_player();
    {
        let snake = game.players[p].snake.as_mut().unwrap();
        snake.set_body(vec![Vector2i::new(1, 1), Vector2i::new(0, 1)]);
        assert!(snake.try_set_look_direction(Direction::PlusX));
    }
    game.pizzas.push(Vector2i::new(2, 1));
    game.step();
    assert_eq!(game.players[p].score, 1);
    assert_eq!(game.pizzas.len(), 0);
    assert_eq!(
        *game.players[p].snake.as_ref().unwrap().body(),
        vec![Vector2i::new(2, 1), Vector2i::new(1, 1)]
    );
    // The growth credit manifests on the next move: the tail stays.
    game.step();
    assert_eq!(
        *game.players[p].snake.as_ref().unwrap().body(),
        vec![Vector2i::new(3, 1), Vector2i::new(2, 1), Vector2i::new(1, 1)]
    );
    assert_eq!(game.players[p].score, 1);
}

// A snake walking off the field dies during the step, and its dead state
// is terminal.
#[test]
fn test_step_wall_kills() {
    let mut game = Game::new(Vector2i::new(4, 4));
    let p = game.register_player();
    {
        let snake = game.players[p].snake.as_mut().unwrap();
        snake.set_body(vec![Vector2i::new(3, 1), Vector2i::new(2, 1)]);
        assert!(snake.try_set_look_direction(Direction::PlusX));
    }
    assert_eq!(game.predict_next_action(p), ActionStep::Die);
    game.step();
    assert!(game.players[p].snake.is_none());
    // Dead players always predict hold from then on.
    assert_eq!(game.predict_next_action(p), ActionStep::Hold);
    assert!(!game.any_alive());
}

// any_alive follows the roster's alive flags.
#[test]
fn test_any_alive() {
    let mut game = Game::new(Vector2i::new(10, 10));
    assert!(!game.any_alive());
    let p = game.register_player();
    assert!(game.any_alive());
    game.players[p].snake = None;
    assert!(!game.any_alive());
}
