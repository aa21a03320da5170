use snakez::Direction;
use snakez::Vector2i;

// Test vector addition
#[test]
fn test_vector_add() {
    let a = Vector2i { x: 1, y: 2 };
    let b = Vector2i { x: 3, y: 4 };
    let c = a.plus(b);
    assert_eq!(c, Vector2i { x: 4, y: 6 });
}

// Test vector subtraction
#[test]
fn test_vector_sub() {
    let a = Vector2i { x: 1, y: 2 };
    let b = Vector2i { x: 3, y: 4 };
    let c = a.minus(b);
    assert_eq!(c, Vector2i { x: -2, y: -2 });
}

// Test vector negation
#[test]
fn test_vector_neg() {
    let a = Vector2i { x: 1, y: 2 };
    let b = a.negate();
    assert_eq!(b, Vector2i { x: -1, y: -2 });
}

// Test vector scaling
#[test]
fn test_vector_scale() {
    let a = Vector2i { x: 2, y: -3 };
    assert_eq!(a.scale(4), Vector2i { x: 8, y: -12 });
}

// Test the constructors
#[test]
fn test_vector_constructors() {
    assert_eq!(Vector2i::unit_x(), Vector2i { x: 1, y: 0 });
    assert_eq!(Vector2i::unit_y(), Vector2i { x: 0, y: 1 });
    assert_eq!(Vector2i::zero(), Vector2i { x: 0, y: 0 });
    assert_eq!(Vector2i::new(7, -2), Vector2i { x: 7, y: -2 });
    assert_eq!(Vector2i::from_array([5, 6]), Vector2i { x: 5, y: 6 });
}

// Test the unit vector of each direction
#[test]
fn test_vector_from_direction() {
    assert_eq!(Vector2i::from_direction(Direction::PlusX), Vector2i { x: 1, y: 0 });
    assert_eq!(Vector2i::from_direction(Direction::MinusX), Vector2i { x: -1, y: 0 });
    assert_eq!(Vector2i::from_direction(Direction::PlusY), Vector2i { x: 0, y: 1 });
    assert_eq!(Vector2i::from_direction(Direction::MinusY), Vector2i { x: 0, y: -1 });
}
