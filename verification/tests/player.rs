use snakez::Direction;
use snakez::Vector2i;
use snakez::player::Player;
use snakez::snake::Snake;

// Intents are applied in order; a reversal into the neck is ignored, and
// later intents override earlier ones.
#[test]
fn test_read_inputs_applies_in_order() {
    let mut player = Player::new();
    player.snake = Some(Snake::new(Vector2i::new(0, 0), Direction::PlusX, 2));
    player.read_inputs(&vec![Direction::PlusY, Direction::MinusX]);
    // PlusY is accepted; MinusX would reverse into the neck and is ignored.
    assert_eq!(player.snake.as_ref().unwrap().look_direction(), Direction::PlusY);
    player.read_inputs(&vec![Direction::MinusX, Direction::MinusY]);
    // The body has not moved, so MinusX still points into the neck and is
    // ignored again; MinusY is a sideways turn and becomes the facing.
    assert_eq!(player.snake.as_ref().unwrap().look_direction(), Direction::MinusY);
}

// A dead player discards its intents and stays dead.
#[test]
fn test_read_inputs_dead_player() {
    let mut player = Player::new();
    player.kill();
    player.read_inputs(&vec![Direction::PlusY]);
    assert!(player.snake.is_none());
    assert_eq!(player.score, 0);
}

// The summary mirrors score and alive state; a kill is terminal and keeps
// the score.
#[test]
fn test_player_summary() {
    let mut player = Player::new();
    player.score = 3;
    let s = player.summary();
    assert_eq!(s.score, 3);
    assert!(s.alive);
    player.kill();
    let s = player.summary();
    assert_eq!(s.score, 3);
    assert!(!s.alive);
    assert!(!player.alive());
}
