//! A single agent's body, facing, and growth state; the only place where
//! movement and turning rules live.

use vstd::prelude::*;

use crate::base::Direction;
use crate::base::Vector2i;

verus! {

/// The mathematical model of a snake: its facing, its body cells
/// (head first), and its pending growth credits.
pub ghost struct SnakeModel {
    pub look_direction: Direction,
    pub body: Seq<Vector2i>,
    pub grow_counter: int,
}

/// Whether `a` and `b` are adjacent grid cells (Manhattan distance 1).
pub open spec fn adjacent(a: Vector2i, b: Vector2i) -> bool {
    vstd::math::abs(a.x - b.x) + vstd::math::abs(a.y - b.y) == 1
}

impl SnakeModel {
    /// The body is contiguous at the neck, has at least head and tail as
    /// distinct cells, and carries no growth debt.
    pub open spec fn wf(self) -> bool {
        &&& self.body.len() >= 2
        &&& adjacent(self.body[0], self.body[1])
        &&& self.grow_counter >= 0
    }

    /// X coordinate of the cell the head would move to next.
    pub open spec fn next_x(self) -> int {
        self.body[0].x + Vector2i::spec_from_direction(self.look_direction).x
    }

    /// Y coordinate of the cell the head would move to next.
    pub open spec fn next_y(self) -> int {
        self.body[0].y + Vector2i::spec_from_direction(self.look_direction).y
    }

    /// Whether the next head cell is representable in machine coordinates.
    pub open spec fn next_head_fits(self) -> bool {
        &&& i32::MIN <= self.next_x() <= i32::MAX
        &&& i32::MIN <= self.next_y() <= i32::MAX
    }

    /// The cell the head would move to next.
    pub open spec fn next_head(self) -> Vector2i {
        Vector2i { x: self.next_x() as i32, y: self.next_y() as i32 }
    }

    /// The unit vector pointing from the head back into the neck: the
    /// direction the snake came from.
    pub open spec fn backward(self) -> Vector2i {
        Vector2i {
            x: (self.body[1].x - self.body[0].x) as i32,
            y: (self.body[1].y - self.body[0].y) as i32,
        }
    }

    /// The snake after one forward step: the next head cell is prepended,
    /// and the tail is dropped unless a growth credit is pending.
    pub open spec fn moved(self) -> SnakeModel {
        SnakeModel {
            look_direction: self.look_direction,
            body: if self.grow_counter > 0 {
                seq![self.next_head()] + self.body
            } else {
                seq![self.next_head()] + self.body.drop_last()
            },
            grow_counter: if self.grow_counter > 0 {
                self.grow_counter - 1
            } else {
                self.grow_counter
            },
        }
    }

    /// The snake with its facing replaced.
    pub open spec fn with_look(self, direction: Direction) -> SnakeModel {
        SnakeModel { look_direction: direction, ..self }
    }

    /// The snake after a turn request: the request is ignored exactly when
    /// its unit vector points backward into the neck.
    pub open spec fn turned(self, direction: Direction) -> SnakeModel {
        if Vector2i::spec_from_direction(direction) == self.backward() {
            self
        } else {
            self.with_look(direction)
        }
    }

    /// The body a freshly constructed snake has: `length` cells laid from
    /// `position` backward along the reverse of `direction`.
    pub open spec fn spawn_body(position: Vector2i, direction: Direction, length: int) -> Seq<
        Vector2i,
    > {
        Seq::new(
            length as nat,
            |i: int|
                Vector2i {
                    x: (position.x - Vector2i::spec_from_direction(direction).x * i) as i32,
                    y: (position.y - Vector2i::spec_from_direction(direction).y * i) as i32,
                },
        )
    }

    /// Whether every cell of a fresh body is representable in machine
    /// coordinates.
    pub open spec fn spawn_body_fits(position: Vector2i, direction: Direction, length: int) -> bool {
        forall|i: int|
            0 <= i < length ==> {
                &&& i32::MIN <= position.x - #[trigger] (Vector2i::spec_from_direction(
                    direction,
                ).x * i) <= i32::MAX
                &&& i32::MIN <= position.y - #[trigger] (Vector2i::spec_from_direction(
                    direction,
                ).y * i) <= i32::MAX
            }
    }
}

/// A forward move preserves the body length unless a growth credit is
/// pending, in which case the length grows by exactly one cell and one
/// credit is consumed.
pub proof fn lemma_move_forward_length(s: SnakeModel)
    requires
        s.body.len() >= 1,
    ensures
        s.grow_counter > 0 ==> s.moved().body.len() == s.body.len() + 1 && s.moved().grow_counter
            == s.grow_counter - 1,
        s.grow_counter <= 0 ==> s.moved().body.len() == s.body.len() && s.moved().grow_counter
            == s.grow_counter,
{
}

/// A snake: the body is an ordered sequence of grid cells, head first.
/// `grow_counter` is the number of future moves that append without
/// truncating the tail.
#[derive(Debug, Clone)]
pub struct Snake {
    pub look_direction: Direction,
    pub body: Vec<Vector2i>,
    pub grow_counter: i32,
}

impl View for Snake {
    type V = SnakeModel;

    open spec fn view(&self) -> SnakeModel {
        SnakeModel {
            look_direction: self.look_direction,
            body: self.body@,
            grow_counter: self.grow_counter as int,
        }
    }
}

impl Snake {
    /// Getter for the direction the snake is looking to move.
    pub fn look_direction(&self) -> (r: Direction)
        ensures
            r == self@.look_direction,
    {
        self.look_direction
    }

    /// Returns the backward direction: the unit vector from the head to the
    /// second body cell, the direction the snake came from.
    pub fn backward_direction(&self) -> (r: Vector2i)
        requires
            self@.body.len() >= 2,
            adjacent(self@.body[0], self@.body[1]),
        ensures
            r == self@.backward(),
    {
        self.body[1].minus(self.body[0])
    }

    /// Getter for the body.
    pub fn body(&self) -> (r: &Vec<Vector2i>)
        ensures
            r@ == self@.body,
    {
        &self.body
    }

    /// Setter for the body.
    pub fn set_body(&mut self, body: Vec<Vector2i>)
        ensures
            final(self)@ == (SnakeModel { body: body@, ..old(self)@ }),
    {
        self.body = body;
    }

    /// Tries to set a new look direction.  A request to reverse directly
    /// into the neck is ignored and the prior facing is retained.  Returns
    /// whether the resulting facing equals the requested one.
    pub fn try_set_look_direction(&mut self, direction: Direction) -> (r: bool)
        requires
            old(self)@.body.len() >= 2,
            adjacent(old(self)@.body[0], old(self)@.body[1]),
        ensures
            final(self)@ == old(self)@.turned(direction),
            r == (direction == final(self)@.look_direction),
    {
        let backward_dir = self.backward_direction();
        let new_dir = Vector2i::from_direction(direction);
        if backward_dir != new_dir {
            self.look_direction = direction;
        }
        direction == self.look_direction
    }

    /// Create a new snake with its head at `position`, facing `direction`,
    /// and `length` cells laid behind the head along the reverse of
    /// `direction`.  The engine's collision logic relies on head and tail
    /// being distinct cells, so a length under 2 is rejected by contract.
    pub fn new(position: Vector2i, direction: Direction, length: u32) -> (r: Snake)
        requires
            length >= 2,
            length <= i32::MAX,
            SnakeModel::spawn_body_fits(position, direction, length as int),
        ensures
            r@.look_direction == direction,
            r@.body == SnakeModel::spawn_body(position, direction, length as int),
            r@.grow_counter == 0,
            r@.wf(),
    {
        let dir_vec = Vector2i::from_direction(direction);
        let mut body: Vec<Vector2i> = Vec::new();
        let mut i: u32 = 0;
        while i < length
            invariant
                i <= length,
                length <= i32::MAX,
                dir_vec == Vector2i::spec_from_direction(direction),
                SnakeModel::spawn_body_fits(position, direction, length as int),
                body@.len() == i as int,
                forall|j: int|
                    0 <= j < i as int ==> body@[j] == SnakeModel::spawn_body(
                        position,
                        direction,
                        length as int,
                    )[j],
            decreases length - i,
        {
            proof {
                assert(dir_vec.x == 0 || dir_vec.x == 1 || dir_vec.x == -1);
                assert(dir_vec.y == 0 || dir_vec.y == 1 || dir_vec.y == -1);
                if dir_vec.x == 0 {
                    assert(dir_vec.x * i as int == 0);
                } else if dir_vec.x == 1 {
                    assert(dir_vec.x * i as int == i as int);
                } else {
                    assert(dir_vec.x * i as int == -(i as int));
                }
                if dir_vec.y == 0 {
                    assert(dir_vec.y * i as int == 0);
                } else if dir_vec.y == 1 {
                    assert(dir_vec.y * i as int == i as int);
                } else {
                    assert(dir_vec.y * i as int == -(i as int));
                }
                assert(i32::MIN <= dir_vec.x * i as int <= i32::MAX);
                assert(i32::MIN <= dir_vec.y * i as int <= i32::MAX);
            }
            body.push(position.minus(dir_vec.scale(i as i32)));
            i = i + 1;
        }
        let snake = Snake { look_direction: direction, body, grow_counter: 0 };
        proof {
            assert(snake@.body =~= SnakeModel::spawn_body(position, direction, length as int));
            assert(Vector2i::spec_from_direction(direction).x * 0int == 0);
            assert(Vector2i::spec_from_direction(direction).x * 1int == Vector2i::spec_from_direction(
                direction,
            ).x);
            assert(Vector2i::spec_from_direction(direction).y * 0int == 0);
            assert(Vector2i::spec_from_direction(direction).y * 1int == Vector2i::spec_from_direction(
                direction,
            ).y);
        }
        snake
    }

    /// Eat the specified amount of food: growth is deferred and manifests
    /// over the next `food` forward moves.
    pub fn eat(&mut self, food: i32)
        requires
            old(self)@.grow_counter + food <= i32::MAX,
            food >= 0,
        ensures
            final(self)@ == (SnakeModel {
                grow_counter: old(self)@.grow_counter + food,
                ..old(self)@
            }),
    {
        self.grow_counter = self.grow_counter + food;
    }

    /// Move the snake one step in its current look direction: the new head
    /// cell is prepended, and the tail is dropped unless a growth credit is
    /// pending, in which case the credit is consumed instead.
    pub fn move_forward(&mut self)
        requires
            old(self)@.body.len() >= 1,
            old(self)@.next_head_fits(),
        ensures
            final(self)@ == old(self)@.moved(),
    {
        let move_dir = Vector2i::from_direction(self.look_direction);
        let new_head = self.body[0].plus(move_dir);
        self.body.insert(0, new_head);
        if self.grow_counter > 0 {
            self.grow_counter = self.grow_counter - 1;
        } else {
            self.body.pop();
        }
        proof {
            assert(self@.body =~= old(self)@.moved().body);
        }
    }
}

} // verus!
