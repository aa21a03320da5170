use snakez::Direction;
use snakez::Vector2i;
use snakez::snake::Snake;

#[test]
fn test_snake_new() {
    let snake = Snake::new(Vector2i::new(0, 0), Direction::PlusX, 3);
    assert_eq!(snake.look_direction(), Direction::PlusX);
    assert_eq!(
        *snake.body(),
        vec![Vector2i::new(0, 0), Vector2i::new(-1, 0), Vector2i::new(-2, 0)]
    );
}

#[test]
fn test_snake_move_forward() {
    let mut snake = Snake::new(Vector2i::new(0, 0), Direction::PlusX, 3);
    snake.move_forward();
    assert_eq!(snake.look_direction(), Direction::PlusX);
    assert_eq!(
        *snake.body(),
        vec![Vector2i::new(1, 0), Vector2i::new(0, 0), Vector2i::new(-1, 0)]
    );
}

// Test move forward after eat
#[test]
fn test_snake_move_forward_after_eat() {
    let mut snake = Snake::new(Vector2i::new(0, 0), Direction::PlusX, 3);
    snake.eat(2);
    snake.move_forward();
    assert_eq!(snake.look_direction(), Direction::PlusX);
    assert_eq!(
        *snake.body(),
        vec![
            Vector2i::new(1, 0),
            Vector2i::new(0, 0),
            Vector2i::new(-1, 0),
            Vector2i::new(-2, 0)
        ]
    );
    snake.move_forward();
    assert_eq!(snake.look_direction(), Direction::PlusX);
    assert_eq!(
        *snake.body(),
        vec![
            Vector2i::new(2, 0),
            Vector2i::new(1, 0),
            Vector2i::new(0, 0),
            Vector2i::new(-1, 0),
            Vector2i::new(-2, 0)
        ]
    );
}

// test try_set_look_direction
#[test]
fn test_snake_try_set_look_direction() {
    let mut snake = Snake::new(Vector2i::new(0, 0), Direction::PlusX, 3);
    assert_eq!(snake.try_set_look_direction(Direction::PlusY), true);
    assert_eq!(snake.look_direction(), Direction::PlusY);
    assert_eq!(snake.try_set_look_direction(Direction::MinusX), false);
    assert_eq!(snake.look_direction(), Direction::PlusY);
    assert_eq!(snake.try_set_look_direction(Direction::MinusY), true);
    assert_eq!(snake.look_direction(), Direction::MinusY);
    assert_eq!(snake.try_set_look_direction(Direction::PlusX), true);
    assert_eq!(snake.look_direction(), Direction::PlusX);
}

// The backward direction points from the head into the neck
#[test]
fn test_snake_backward_direction() {
    let snake = Snake::new(Vector2i::new(0, 0), Direction::PlusX, 2);
    assert_eq!(snake.backward_direction(), Vector2i::new(-1, 0));
}
