//! The game: the player roster, the food pool, and the tick step with its
//! two-phase simultaneous-move resolution.

use vstd::prelude::*;

use crate::base::Direction;
use crate::base::PlayerIndex;
use crate::base::Vector2i;
use crate::grid::Grid;
use crate::grid::GridCell;
use crate::grid::PizzaRec;
use crate::grid::SnakeBodyPart;
use crate::grid::SnakeRec;
use crate::grid::grid_dim;
use crate::player::Player;
use crate::player::PlayerModel;
use crate::snake::Snake;
use crate::snake::SnakeModel;

verus! {

/// The body length every snake is spawned with.
pub const INITIAL_LENGTH: u32 = 2;

/// One of the things that may happen with a snake during an update step.
#[derive(Debug, Clone, Copy, PartialEq, Eq, Structural)]
pub enum ActionStep {
    /// The snake cannot move because another snake competes for the same
    /// cell.
    Hold,
    /// The snake moves in the direction it is looking at.
    Move,
    /// The snake dies because it collides with a snake body or the wall.
    Die,
}

/// The game object: the player roster (the index in it is the stable player
/// identity), the fixed field size, the food pool, and the cached grid
/// snapshot rebuilt after every step.
pub struct Game {
    pub players: Vec<Player>,
    pub field_size: Vector2i,
    pub pizzas: Vec<Vector2i>,
    pub grid: Grid,
}

impl Game {
    /// Number of registered players.
    pub open spec fn num_players(self) -> int {
        self.players@.len() as int
    }

    /// Whether the player at index `i` is alive.
    pub open spec fn player_alive(self, i: int) -> bool {
        self.players@[i]@.snake is Some
    }

    /// The model of the snake of the (alive) player at index `i`.
    pub open spec fn snake_at(self, i: int) -> SnakeModel {
        self.players@[i]@.snake.unwrap()
    }

    /// Whether coordinates lie inside the field.
    pub open spec fn in_field(self, x: int, y: int) -> bool {
        &&& 0 <= x < self.field_size.x
        &&& 0 <= y < self.field_size.y
    }

    /// Whether a cell lies inside the field.
    pub open spec fn cell_in_field(self, c: Vector2i) -> bool {
        self.in_field(c.x as int, c.y as int)
    }

    /// Whether cell `(x, y)` is the `k`-th body cell, tail excluded, of the
    /// alive player `j`.  Tails are excluded because they vacate during the
    /// same step if that snake itself moves.
    pub open spec fn blocked_by(self, x: int, y: int, j: int, k: int) -> bool {
        &&& 0 <= j < self.num_players()
        &&& self.player_alive(j)
        &&& 0 <= k < self.snake_at(j).body.len() - 1
        &&& self.snake_at(j).body[k].x == x
        &&& self.snake_at(j).body[k].y == y
    }

    /// Whether cell `(x, y)` is occupied by a non-tail body cell of any
    /// alive snake.
    pub open spec fn cell_blocked(self, x: int, y: int) -> bool {
        exists|j: int, k: int| self.blocked_by(x, y, j, k)
    }

    /// Whether the alive player `j`, distinct from `i`, predicts the same
    /// next head cell as player `i`.
    pub open spec fn contests(self, i: int, j: int) -> bool {
        &&& 0 <= j < self.num_players()
        &&& j != i
        &&& self.player_alive(j)
        &&& self.snake_at(j).next_x() == self.snake_at(i).next_x()
        &&& self.snake_at(j).next_y() == self.snake_at(i).next_y()
    }

    /// Whether any other alive player predicts the same next head cell as
    /// player `i`.
    pub open spec fn head_contested(self, i: int) -> bool {
        exists|j: int| self.contests(i, j)
    }

    /// The action player `i` resolves to, computed from the pre-step state
    /// alone: dead players hold; leaving the field or entering a non-tail
    /// body cell kills; a contested head cell holds; otherwise the snake
    /// moves.
    pub open spec fn spec_next_action(self, i: int) -> ActionStep {
        if !self.player_alive(i) {
            ActionStep::Hold
        } else if !self.in_field(self.snake_at(i).next_x(), self.snake_at(i).next_y()) {
            ActionStep::Die
        } else if self.cell_blocked(self.snake_at(i).next_x(), self.snake_at(i).next_y()) {
            ActionStep::Die
        } else if self.head_contested(i) {
            ActionStep::Hold
        } else {
            ActionStep::Move
        }
    }

    /// Whether every body cell of a snake lies inside the field.
    pub open spec fn snake_in_field(self, s: SnakeModel) -> bool {
        forall|k: int| 0 <= k < s.body.len() ==> self.cell_in_field(#[trigger] s.body[k])
    }

    /// The game invariant: every alive snake well-formed (contiguous neck,
    /// head and tail distinct, no growth debt) and the pizzas on pairwise
    /// distinct cells.
    pub open spec fn wf(self) -> bool {
        &&& forall|i: int|
            0 <= i < self.num_players() && #[trigger] self.player_alive(i) ==> self.snake_at(
                i,
            ).wf()
        &&& forall|k1: int, k2: int|
            0 <= k1 < k2 < self.pizzas@.len() ==> self.pizzas@[k1] != self.pizzas@[k2]
    }

    /// Whether the next head cell of every alive snake is representable in
    /// machine coordinates: what the prediction arithmetic needs.
    pub open spec fn next_heads_fit(self) -> bool {
        forall|i: int|
            0 <= i < self.num_players() && #[trigger] self.player_alive(i) ==> self.snake_at(
                i,
            ).next_head_fits()
    }

    /// Whether every alive snake's body and every pizza lie inside the
    /// field: what stamping the grid needs.
    pub open spec fn all_in_field(self) -> bool {
        &&& forall|i: int|
            0 <= i < self.num_players() && #[trigger] self.player_alive(i)
                ==> self.snake_in_field(self.snake_at(i))
        &&& forall|k: int| 0 <= k < self.pizzas@.len() ==> self.cell_in_field(#[trigger] self.pizzas@[k])
    }

    /// Creates a new uninitialized game object.
    pub fn new(field_size: Vector2i) -> (r: Game)
        ensures
            r.players@.len() == 0,
            r.pizzas@.len() == 0,
            r.field_size == field_size,
            grid_dim(r.grid) == (0int, 0int),
            r.wf(),
            r.next_heads_fit(),
            r.all_in_field(),
    {
        Game {
            players: Vec::new(),
            field_size,
            pizzas: Vec::new(),
            grid: Grid::from_elem(0, 0, GridCell::Empty),
        }
    }

    /// The direction the snake spawned in slot `index` faces: outward from
    /// the field center.
    pub open spec fn spec_spawn_dir(index: int) -> Direction {
        if index == 0 {
            Direction::MinusX
        } else if index == 1 {
            Direction::MinusY
        } else if index == 2 {
            Direction::PlusX
        } else {
            Direction::PlusY
        }
    }

    /// X coordinate of the spawn head for slot `index`.
    pub open spec fn spec_spawn_x(index: int, length: int, field_size: Vector2i) -> int {
        let cx = field_size.x as int / 2;
        if index == 0 {
            cx - length
        } else if index == 2 {
            cx + length
        } else {
            cx
        }
    }

    /// Y coordinate of the spawn head for slot `index`.
    pub open spec fn spec_spawn_y(index: int, length: int, field_size: Vector2i) -> int {
        let cy = field_size.y as int / 2;
        if index == 1 {
            cy - length
        } else if index == 3 {
            cy + length
        } else {
            cy
        }
    }

    /// Calculate the spawn position and direction for the snake with the
    /// given slot index.  All snakes start from the center outwards, and at
    /// most four snakes can be spawned.
    pub fn calc_spawn_pos(index: PlayerIndex, length: u32, field_size: Vector2i) -> (r: (
        Vector2i,
        Direction,
    ))
        requires
            index < 4,
            length <= i32::MAX,
            field_size.x >= 0,
            field_size.y >= 0,
            i32::MIN <= Game::spec_spawn_x(index as int, length as int, field_size) <= i32::MAX,
            i32::MIN <= Game::spec_spawn_y(index as int, length as int, field_size) <= i32::MAX,
        ensures
            r.0.x == Game::spec_spawn_x(index as int, length as int, field_size),
            r.0.y == Game::spec_spawn_y(index as int, length as int, field_size),
            r.1 == Game::spec_spawn_dir(index as int),
    {
        let mut pos = Vector2i::new(field_size.x / 2, field_size.y / 2);
        proof {
            assert(pos.x == field_size.x as int / 2);
            assert(pos.y == field_size.y as int / 2);
        }
        let dir: Direction;
        if index == 0 {
            pos.x = pos.x - length as i32;
            dir = Direction::MinusX;
        } else if index == 1 {
            pos.y = pos.y - length as i32;
            dir = Direction::MinusY;
        } else if index == 2 {
            pos.x = pos.x + length as i32;
            dir = Direction::PlusX;
        } else {
            pos.y = pos.y + length as i32;
            dir = Direction::PlusY;
        }
        (pos, dir)
    }

    /// The spawn cells of the next roster slot all lie inside the field.
    /// A spawned snake has `INITIAL_LENGTH` (that is, 2) cells: its head
    /// and one cell behind it.  On a field too small for the slot this
    /// fails, and the spawned snake then lies partly outside the field:
    /// the grid cannot be generated until its body is moved inside.
    pub open spec fn spawn_fits(self, index: int) -> bool {
        let u = Vector2i::spec_from_direction(Game::spec_spawn_dir(index));
        let sx = Game::spec_spawn_x(index, INITIAL_LENGTH as int, self.field_size);
        let sy = Game::spec_spawn_y(index, INITIAL_LENGTH as int, self.field_size);
        &&& self.in_field(sx, sy)
        &&& self.in_field(sx - u.x, sy - u.y)
    }

    /// Adds a new player, spawned in the next free roster slot.  Returns
    /// the new player's index, its stable identity for the whole game.
    pub fn register_player(&mut self) -> (r: PlayerIndex)
        requires
            old(self).wf(),
            old(self).num_players() < 4,
            old(self).field_size.x >= 0,
            old(self).field_size.y >= 0,
        ensures
            r == old(self).num_players(),
            final(self).num_players() == old(self).num_players() + 1,
            forall|j: int|
                0 <= j < old(self).num_players() ==> final(self).players@[j]@ == old(
                    self,
                ).players@[j]@,
            final(self).players@[r as int]@.score == 0,
            final(self).players@[r as int]@.snake == Some(
                SnakeModel {
                    look_direction: Game::spec_spawn_dir(r as int),
                    body: SnakeModel::spawn_body(
                        Vector2i {
                            x: Game::spec_spawn_x(
                                r as int,
                                INITIAL_LENGTH as int,
                                old(self).field_size,
                            ) as i32,
                            y: Game::spec_spawn_y(
                                r as int,
                                INITIAL_LENGTH as int,
                                old(self).field_size,
                            ) as i32,
                        },
                        Game::spec_spawn_dir(r as int),
                        INITIAL_LENGTH as int,
                    ),
                    grow_counter: 0,
                },
            ),
            final(self).field_size == old(self).field_size,
            final(self).pizzas@ == old(self).pizzas@,
            final(self).grid == old(self).grid,
            final(self).wf(),
            old(self).next_heads_fit() ==> final(self).next_heads_fit(),
            old(self).all_in_field() && old(self).spawn_fits(old(self).num_players())
                ==> final(self).all_in_field(),
    {
        let new_player_index = self.players.len();
        proof {
            // The spawn cells stay far inside the i32 range: the center
            // coordinates are at most half the i32 range, and the offsets
            // are the spawn length plus one.
            assert(0 <= self.field_size.x as int / 2 <= 0x3fffffff);
            assert(0 <= self.field_size.y as int / 2 <= 0x3fffffff);
        }
        let (spaw_pos, spawn_dir) = Game::calc_spawn_pos(
            new_player_index,
            INITIAL_LENGTH,
            self.field_size,
        );
        proof {
            let u = Vector2i::spec_from_direction(spawn_dir);
            assert(u.x == 0 || u.x == 1 || u.x == -1);
            assert(u.y == 0 || u.y == 1 || u.y == -1);
            assert forall|i: int| 0 <= i < INITIAL_LENGTH as int implies {
                &&& i32::MIN <= spaw_pos.x - #[trigger] (u.x * i) <= i32::MAX
                &&& i32::MIN <= spaw_pos.y - #[trigger] (u.y * i) <= i32::MAX
            } by {
                if i == 0 {
                    assert(u.x * i == 0);
                    assert(u.y * i == 0);
                } else {
                    assert(i == 1);
                    assert(u.x * i == u.x);
                    assert(u.y * i == u.y);
                }
            }
        }
        let mut player = Player::new();
        player.snake = Some(Snake::new(spaw_pos, spawn_dir, INITIAL_LENGTH));
        self.players.push(player);
        proof {
            let g1 = *self;
            let g0 = *old(self);
            let n = new_player_index as int;
            let u = Vector2i::spec_from_direction(spawn_dir);
            let body = g1.snake_at(n).body;
            assert(body[0].x == spaw_pos.x - u.x * 0 && body[0].y == spaw_pos.y - u.y * 0);
            assert(body[1].x == spaw_pos.x - u.x * 1 && body[1].y == spaw_pos.y - u.y * 1);
            assert(u.x * 0 == 0 && u.y * 0 == 0 && u.x * 1 == u.x && u.y * 1 == u.y);
            assert(crate::snake::adjacent(body[0], body[1]));
            assert(g1.snake_at(n).wf());
            assert forall|i: int|
                0 <= i < g1.num_players() && #[trigger] g1.player_alive(i) implies g1.snake_at(
                i,
            ).wf() by {
                if i < n {
                    assert(g1.players@[i]@ == g0.players@[i]@);
                    assert(g0.player_alive(i));
                }
            }
            if g0.next_heads_fit() {
                assert forall|i: int|
                    0 <= i < g1.num_players() && #[trigger] g1.player_alive(i) implies g1.snake_at(
                    i,
                ).next_head_fits() by {
                    if i < n {
                        assert(g1.players@[i]@ == g0.players@[i]@);
                        assert(g0.player_alive(i));
                    } else {
                        assert(g1.snake_at(n).body[0] == spaw_pos);
                    }
                }
            }
            if g0.all_in_field() && g0.spawn_fits(g0.num_players()) {
                assert forall|k: int| 0 <= k < body.len() implies g1.cell_in_field(
                    #[trigger] body[k],
                ) by {
                    if k == 0 {
                        assert(u.x * 0 == 0 && u.y * 0 == 0);
                    } else {
                        assert(k == 1);
                        assert(u.x * 1 == u.x && u.y * 1 == u.y);
                    }
                }
                assert(g1.snake_in_field(g1.snake_at(n)));
                assert forall|i: int|
                    0 <= i < g1.num_players() && #[trigger] g1.player_alive(
                        i,
                    ) implies g1.snake_in_field(g1.snake_at(i)) by {
                    if i < n {
                        assert(g1.players@[i]@ == g0.players@[i]@);
                        assert(g0.player_alive(i));
                        assert(g0.snake_in_field(g0.snake_at(i)));
                        assert forall|k: int|
                            0 <= k < g1.snake_at(i).body.len() implies g1.cell_in_field(
                            #[trigger] g1.snake_at(i).body[k],
                        ) by {
                            assert(g0.cell_in_field(g0.snake_at(i).body[k]));
                        }
                    }
                }
            }
        }
        new_player_index
    }

    /// Predicts the action that a particular player's snake will take in
    /// the next step, using only the pre-step state.
    #[verifier::loop_isolation(false)]
    pub fn predict_next_action(&self, player_index: PlayerIndex) -> (r: ActionStep)
        requires
            self.wf(),
            self.next_heads_fit(),
            (player_index as int) < self.num_players(),
        ensures
            r == self.spec_next_action(player_index as int),
    {
        let ghost pi = player_index as int;
        // Dead players always hold.
        if !self.players[player_index].alive() {
            return ActionStep::Hold;
        }
        // First estimate the coordinate of the potential new head.
        let player_snake = match &self.players[player_index].snake {
            Some(s) => s,
            None => vstd::pervasive::unreached(),
        };
        proof {
            assert(self.player_alive(pi));
            assert(self.snake_at(pi).wf());
            assert(self.snake_at(pi).next_head_fits());
        }
        let new_head = player_snake.body[0].plus(
            Vector2i::from_direction(player_snake.look_direction),
        );
        proof {
            assert(new_head.x == self.snake_at(pi).next_x());
            assert(new_head.y == self.snake_at(pi).next_y());
        }
        // Check whether the new head stays inside the field.
        if new_head.x < 0 || new_head.x >= self.field_size.x || new_head.y < 0 || new_head.y
            >= self.field_size.y {
            return ActionStep::Die;
        }
        // See whether the new head position is occupied by a non-tail body
        // cell of any alive snake, the acting one included.
        let mut j: usize = 0;
        while j < self.players.len()
            invariant
                j <= self.num_players(),
                forall|jj: int, k: int|
                    0 <= jj < j as int ==> !self.blocked_by(
                        new_head.x as int,
                        new_head.y as int,
                        jj,
                        k,
                    ),
            decreases self.num_players() - j,
        {
            if self.players[j].alive() {
                let any_snake = match &self.players[j].snake {
                    Some(s) => s,
                    None => vstd::pervasive::unreached(),
                };
                proof {
                    assert(self.player_alive(j as int));
                    assert(self.snake_at(j as int).wf());
                }
                let blen = any_snake.body.len();
                let mut k: usize = 0;
                while k < blen - 1
                    invariant
                        j < self.num_players(),
                        self.player_alive(j as int),
                        any_snake@ == self.snake_at(j as int),
                        blen == any_snake.body@.len(),
                        blen >= 2,
                        k <= blen - 1,
                        forall|kk: int|
                            0 <= kk < k as int ==> !(self.snake_at(j as int).body[kk]
                                == new_head),
                    decreases blen - k,
                {
                    if any_snake.body[k] == new_head {
                        proof {
                            assert(self.blocked_by(
                                new_head.x as int,
                                new_head.y as int,
                                j as int,
                                k as int,
                            ));
                        }
                        return ActionStep::Die;
                    }
                    k = k + 1;
                }
            }
            j = j + 1;
        }
        proof {
            assert(!self.cell_blocked(new_head.x as int, new_head.y as int));
        }
        // If any other snake competes for the same head position, hold.
        let mut j: usize = 0;
        while j < self.players.len()
            invariant
                j <= self.num_players(),
                forall|jj: int| 0 <= jj < j as int ==> !self.contests(pi, jj),
            decreases self.num_players() - j,
        {
            if j != player_index && self.players[j].alive() {
                let other_snake = match &self.players[j].snake {
                    Some(s) => s,
                    None => vstd::pervasive::unreached(),
                };
                proof {
                    assert(self.player_alive(j as int));
                    assert(self.snake_at(j as int).wf());
                    assert(self.snake_at(j as int).next_head_fits());
                }
                let other_new_head = other_snake.body[0].plus(
                    Vector2i::from_direction(other_snake.look_direction),
                );
                if other_new_head == new_head {
                    proof {
                        assert(self.contests(pi, j as int));
                    }
                    return ActionStep::Hold;
                }
            }
            j = j + 1;
        }
        proof {
            assert(!self.head_contested(pi));
        }
        // In all other cases the snake can move.
        ActionStep::Move
    }

    /// Whether the pizza pool holds a pizza under the cell the snake of
    /// player `i` is about to move to.
    pub open spec fn spec_ate(self, i: int) -> bool {
        self.pizzas@.contains(self.snake_at(i).next_head())
    }

    /// The snake of player `i` after it moves and possibly eats: if the
    /// predicted head cell holds a pizza, the snake gains one growth
    /// credit.
    pub open spec fn spec_moved_snake(self, i: int) -> SnakeModel {
        let m = self.snake_at(i).moved();
        if self.spec_ate(i) {
            SnakeModel { grow_counter: m.grow_counter + 1, ..m }
        } else {
            m
        }
    }

    /// Mutable access to one roster slot.
    fn player_at_mut(players: &mut Vec<Player>, i: usize) -> (r: &mut Player)
        requires
            i < old(players).len(),
        ensures
            *r == old(players)@[i as int],
            final(players)@ == old(players)@.update(i as int, *final(r)),
    {
        &mut players[i]
    }

    /// Moves the snake of an alive player one step and settles eating: if
    /// the new head lands on a pizza, the player scores one point, the
    /// snake gains one growth credit, and that pizza leaves the pool.
    /// This is the only place where score changes and food is consumed.
    #[verifier::loop_isolation(false)]
    pub fn move_player(&mut self, player_index: PlayerIndex)
        requires
            old(self).wf(),
            (player_index as int) < old(self).num_players(),
            old(self).player_alive(player_index as int),
            old(self).snake_at(player_index as int).next_head_fits(),
            old(self).players@[player_index as int]@.score < u32::MAX,
        ensures
            final(self).field_size == old(self).field_size,
            final(self).grid == old(self).grid,
            final(self).num_players() == old(self).num_players(),
            forall|j: int|
                0 <= j < old(self).num_players() && j != player_index as int ==> final(self).players@[j]@ == old(self).players@[j]@,
            final(self).players@[player_index as int]@.snake == Some(
                old(self).spec_moved_snake(player_index as int),
            ),
            final(self).players@[player_index as int]@.score == old(
                self,
            ).players@[player_index as int]@.score + if old(self).spec_ate(player_index as int) {
                1int
            } else {
                0int
            },
            !old(self).spec_ate(player_index as int) ==> final(self).pizzas@ == old(self).pizzas@,
            old(self).spec_ate(player_index as int) ==> exists|k: int|
                0 <= k < old(self).pizzas@.len() && old(self).pizzas@[k] == old(self).snake_at(
                    player_index as int,
                ).next_head() && final(self).pizzas@ == old(self).pizzas@.remove(k),
            old(self).spec_ate(player_index as int) ==> forall|p: Vector2i|
                #[trigger] old(self).pizzas@.contains(p) ==> (final(self).pizzas@.contains(p) <==> p
                    != old(self).snake_at(player_index as int).next_head()),
            old(self).spec_ate(player_index as int) ==> forall|p: Vector2i|
                #[trigger] final(self).pizzas@.contains(p) ==> old(self).pizzas@.contains(p),
            old(self).spec_ate(player_index as int) ==> final(self).pizzas@.len() == old(
                self,
            ).pizzas@.len() - 1,
            final(self).wf(),
    {
        let ghost pi = player_index as int;
        let ghost g0 = *old(self);
        let ghost h = g0.snake_at(pi).next_head();
        // The cell the head is about to land on.
        let new_head = match &self.players[player_index].snake {
            Some(s) => {
                proof {
                    assert(g0.player_alive(pi));
                    assert(g0.snake_at(pi).wf());
                    assert(g0.snake_at(pi).next_head_fits());
                }
                s.body[0].plus(Vector2i::from_direction(s.look_direction))
            },
            None => vstd::pervasive::unreached(),
        };
        proof {
            assert(new_head == h);
        }
        // Look for a pizza under that cell.
        let mut idx: usize = 0;
        let mut found = false;
        while !found && idx < self.pizzas.len()
            invariant
                idx <= self.pizzas@.len(),
                forall|k: int| 0 <= k < idx as int ==> self.pizzas@[k] != new_head,
                found ==> idx < self.pizzas@.len() && self.pizzas@[idx as int] == new_head,
            decreases self.pizzas@.len() - idx + if found {
                0int
            } else {
                1int
            },
        {
            if self.pizzas[idx] == new_head {
                found = true;
            } else {
                idx = idx + 1;
            }
        }
        proof {
            assert(found == g0.spec_ate(pi));
        }
        // Move the snake, and let it grow if it ate.
        let player = Game::player_at_mut(&mut self.players, player_index);
        match &mut player.snake {
            Some(snake) => {
                snake.move_forward();
                if found {
                    snake.eat(1);
                }
            },
            None => {
                proof {
                    assert(false);
                }
            },
        }
        if found {
            player.score = player.score + 1;
        }
        if found {
            self.pizzas.remove(idx);
            proof {
                g0.pizzas@.remove_ensures(idx as int);
                assert(self.pizzas@ == g0.pizzas@.remove(idx as int));
                assert forall|p: Vector2i| #[trigger]
                    g0.pizzas@.contains(p) implies (self.pizzas@.contains(p) <==> p != h) by {
                    if p == h {
                        if self.pizzas@.contains(p) {
                            let j = choose|j: int|
                                0 <= j < self.pizzas@.len() && self.pizzas@[j] == p;
                            if j < idx as int {
                                assert(g0.pizzas@[j] == p);
                                assert(g0.pizzas@[idx as int] == p);
                                assert(false);
                            } else {
                                assert(g0.pizzas@[j + 1] == p);
                                assert(g0.pizzas@[idx as int] == p);
                                assert(false);
                            }
                        }
                    } else {
                        let j = choose|j: int| 0 <= j < g0.pizzas@.len() && g0.pizzas@[j] == p;
                        if j < idx as int {
                            assert(self.pizzas@[j] == p);
                        } else {
                            assert(j > idx as int);
                            assert(self.pizzas@[j - 1] == p);
                        }
                    }
                }
                assert forall|p: Vector2i| #[trigger]
                    self.pizzas@.contains(p) implies g0.pizzas@.contains(p) by {
                    let j = choose|j: int| 0 <= j < self.pizzas@.len() && self.pizzas@[j] == p;
                    if j < idx as int {
                        assert(g0.pizzas@[j] == p);
                    } else {
                        assert(g0.pizzas@[j + 1] == p);
                    }
                }
            }
        }
        proof {
            let g1 = *self;
            assert(g1.players@[pi]@.snake == Some(g0.spec_moved_snake(pi)));
            assert forall|i: int|
                0 <= i < g1.num_players() && #[trigger] g1.player_alive(i) implies g1.snake_at(
                i,
            ).wf() by {
                if i == pi {
                    let s0 = g0.snake_at(pi);
                    let s1 = g1.snake_at(pi);
                    assert(s1.body[0] == h);
                    assert(s1.body[1] == s0.body[0]);
                    assert(crate::snake::adjacent(s1.body[0], s1.body[1]));
                } else {
                    assert(g1.players@[i]@ == g0.players@[i]@);
                    assert(g0.player_alive(i));
                }
            }
            if g0.spec_ate(pi) {
                let k = choose|k: int|
                    0 <= k < g0.pizzas@.len() && g0.pizzas@[k] == h && g1.pizzas@
                        == g0.pizzas@.remove(k);
                g0.pizzas@.remove_ensures(k);
                assert forall|k1: int, k2: int|
                    0 <= k1 < k2 < g1.pizzas@.len() implies g1.pizzas@[k1] != g1.pizzas@[k2] by {
                    let o1: int = if k1 < k { k1 } else { k1 + 1 };
                    let o2: int = if k2 < k { k2 } else { k2 + 1 };
                    assert(g1.pizzas@[k1] == g0.pizzas@[o1]);
                    assert(g1.pizzas@[k2] == g0.pizzas@[o2]);
                }
            }
        }
    }

    /// How the post-step state `post` of the player at index `j` relates
    /// to the pre-step game: a holding player is unchanged, a dying player
    /// loses its snake and keeps its score, and a moving player advances
    /// its snake and scores exactly when its new head lands on a pizza of
    /// the pre-step pool.
    pub open spec fn step_outcome(self, post: PlayerModel, j: int) -> bool {
        let a = self.spec_next_action(j);
        &&& (a == ActionStep::Hold ==> post == self.players@[j]@)
        &&& (a == ActionStep::Die ==> post == (PlayerModel {
            snake: None,
            score: self.players@[j]@.score,
        }))
        &&& (a == ActionStep::Move ==> post == (PlayerModel {
            snake: Some(self.spec_moved_snake(j)),
            score: self.players@[j]@.score + if self.spec_ate(j) {
                1int
            } else {
                0int
            },
        }))
    }
}

/// Whether player `j` resolves to `Move` with its predicted head on `p`.
pub open spec fn mover_eats(g: Game, j: int, p: Vector2i) -> bool {
    &&& 0 <= j < g.num_players()
    &&& g.spec_next_action(j) == ActionStep::Move
    &&& g.snake_at(j).next_head() == p
}

/// Whether some player with index below `upto` resolves to `Move` with its
/// predicted head on `p`.
pub open spec fn eaten_before(g: Game, upto: int, p: Vector2i) -> bool {
    exists|j: int| j < upto && mover_eats(g, j, p)
}

/// The pizzas of game `g` that remain once the players with index below
/// `upto` have taken their step: a pizza is gone exactly when some such
/// player moves its head onto it.
pub open spec fn surviving_pizzas(g: Game, upto: int) -> Seq<Vector2i> {
    g.pizzas@.filter(|p: Vector2i| !eaten_before(g, upto, p))
}

/// Filtering with a predicate that holds of every element returns the
/// sequence unchanged.
proof fn lemma_filter_all_true<A>(s: Seq<A>, pred: spec_fn(A) -> bool)
    requires
        forall|i: int| 0 <= i < s.len() ==> pred(#[trigger] s[i]),
    ensures
        s.filter(pred) == s,
    decreases s.len(),
{
    reveal(Seq::filter);
    if s.len() > 0 {
        assert forall|i: int| 0 <= i < s.drop_last().len() implies pred(
            #[trigger] s.drop_last()[i],
        ) by {
            assert(s.drop_last()[i] == s[i]);
        }
        lemma_filter_all_true(s.drop_last(), pred);
        assert(pred(s.last()));
        assert(s.drop_last().push(s.last()) =~= s);
    }
}

/// Filtering twice is filtering once with the conjunction.
proof fn lemma_filter_compose<A>(
    s: Seq<A>,
    f: spec_fn(A) -> bool,
    g: spec_fn(A) -> bool,
    fg: spec_fn(A) -> bool,
)
    requires
        forall|a: A| #[trigger] fg(a) <==> (f(a) && g(a)),
    ensures
        s.filter(f).filter(g) == s.filter(fg),
    decreases s.len(),
{
    reveal(Seq::filter);
    if s.len() > 0 {
        let d = s.drop_last();
        let x = s.last();
        lemma_filter_compose(d, f, g, fg);
        if f(x) {
            let t = d.filter(f).push(x);
            assert(s.filter(f) == t);
            assert(t.last() == x);
            assert(t.drop_last() == d.filter(f));
        }
    }
}

/// Two predicates that agree on every element of a sequence filter it to
/// the same result.
proof fn lemma_filter_congruence<A>(s: Seq<A>, f: spec_fn(A) -> bool, g: spec_fn(A) -> bool)
    requires
        forall|i: int| 0 <= i < s.len() ==> (f(#[trigger] s[i]) <==> g(s[i])),
    ensures
        s.filter(f) == s.filter(g),
    decreases s.len(),
{
    reveal(Seq::filter);
    if s.len() > 0 {
        assert forall|i: int| 0 <= i < s.drop_last().len() implies (f(
            #[trigger] s.drop_last()[i],
        ) <==> g(s.drop_last()[i])) by {
            assert(s.drop_last()[i] == s[i]);
        }
        lemma_filter_congruence(s.drop_last(), f, g);
        assert(f(s.last()) <==> g(s.last()));
    }
}

/// Removing the one occurrence of a value from a duplicate-free sequence
/// is filtering that value out.
proof fn lemma_remove_is_filter(s: Seq<Vector2i>, k: int, h: Vector2i)
    requires
        0 <= k < s.len(),
        s[k] == h,
        forall|i: int, j: int| 0 <= i < j < s.len() ==> s[i] != s[j],
    ensures
        s.remove(k) == s.filter(|p: Vector2i| p != h),
{
    reveal(Seq::filter);
    let f = |p: Vector2i| p != h;
    let a = s.subrange(0, k);
    let b = s.subrange(k, k + 1);
    let c = s.subrange(k + 1, s.len() as int);
    assert(s =~= (a + b) + c);
    Seq::filter_distributes_over_add(a + b, c, f);
    Seq::filter_distributes_over_add(a, b, f);
    assert(b.filter(f) =~= Seq::<Vector2i>::empty()) by {
        reveal(Seq::filter);
        assert(b.len() == 1);
        assert(b.last() == h);
        assert(!f(h));
        assert(b.drop_last() =~= Seq::<Vector2i>::empty());
        assert(b.filter(f) == b.drop_last().filter(f));
        assert(Seq::<Vector2i>::empty().filter(f) =~= Seq::<Vector2i>::empty());
    }
    assert forall|i: int| 0 <= i < a.len() implies f(#[trigger] a[i]) by {
        assert(a[i] == s[i]);
    }
    assert forall|i: int| 0 <= i < c.len() implies f(#[trigger] c[i]) by {
        assert(c[i] == s[k + 1 + i]);
    }
    lemma_filter_all_true(a, f);
    lemma_filter_all_true(c, f);
    assert(s.filter(f) == ((a + b) + c).filter(f));
    assert(s.remove(k) =~= a + c);
    assert((a.filter(f) + b.filter(f)) + c.filter(f) =~= a + c);
}

/// No two players that both resolve to `Move` predict the same head cell:
/// had their heads coincided, both would have held instead.
pub proof fn lemma_movers_distinct_heads(g: Game, i: int, j: int)
    requires
        0 <= i < g.num_players(),
        0 <= j < g.num_players(),
        i != j,
        g.spec_next_action(i) == ActionStep::Move,
        g.spec_next_action(j) == ActionStep::Move,
    ensures
        g.snake_at(i).next_head() != g.snake_at(j).next_head(),
{
    assert(g.player_alive(i));
    assert(g.player_alive(j));
    if g.snake_at(i).next_head() == g.snake_at(j).next_head() {
        assert(g.in_field(g.snake_at(i).next_x(), g.snake_at(i).next_y()));
        assert(g.in_field(g.snake_at(j).next_x(), g.snake_at(j).next_y()));
        assert(g.snake_at(i).next_x() == g.snake_at(j).next_x());
        assert(g.snake_at(i).next_y() == g.snake_at(j).next_y());
        assert(g.contests(i, j));
        assert(g.head_contested(i));
        assert(false);
    }
}

/// Extending the range of already-applied players by one adds exactly the
/// contribution of that player.
proof fn lemma_eaten_before_step(g: Game, i: int, p: Vector2i)
    ensures
        eaten_before(g, i + 1, p) <==> (eaten_before(g, i, p) || mover_eats(g, i, p)),
{
    if eaten_before(g, i + 1, p) {
        let j = choose|j: int| j < i + 1 && mover_eats(g, j, p);
        if j < i {
            assert(j < i && mover_eats(g, j, p));
        } else {
            assert(j == i);
        }
    }
    if eaten_before(g, i, p) {
        let j = choose|j: int| j < i && mover_eats(g, j, p);
        assert(j < i + 1 && mover_eats(g, j, p));
    }
    if mover_eats(g, i, p) {
        assert(i < i + 1 && mover_eats(g, i, p));
    }
}

/// A game whose alive players and pizzas are unchanged is still
/// well-formed, whatever happened to the dead players.
proof fn lemma_wf_alive_unchanged(g1: Game, g2: Game)
    requires
        g1.wf(),
        g2.field_size == g1.field_size,
        g2.pizzas@ == g1.pizzas@,
        g2.num_players() == g1.num_players(),
        forall|j: int|
            0 <= j < g2.num_players() && #[trigger] g2.player_alive(j) ==> g2.players@[j]@
                == g1.players@[j]@,
    ensures
        g2.wf(),
{
    assert forall|i: int|
        0 <= i < g2.num_players() && #[trigger] g2.player_alive(i) implies g2.snake_at(
        i,
    ).wf() by {
        assert(g2.players@[i]@ == g1.players@[i]@);
        assert(g1.player_alive(i));
    }
}

/// Relies on `rand::random`: a value drawn from the thread-local random
/// number generator.  Nothing is promised of the value.
pub assume_specification<T>[ rand::random::<T> ]() -> (r: T)
    where
        rand::distr::StandardUniform: rand::distr::Distribution<T>,
;

/// The spawn table, for any field size and spawn length: slot 0 spawns at
/// `(W/2 - L, H/2)` facing -X, slot 1 at `(W/2, H/2 - L)` facing -Y, slot
/// 2 at `(W/2 + L, H/2)` facing +X, and slot 3 at `(W/2, H/2 + L)` facing
/// +Y — each snake `L` cells from the center, facing outward.
pub proof fn lemma_spawn_table(length: int, field_size: Vector2i)
    ensures
        Game::spec_spawn_x(0, length, field_size) == field_size.x as int / 2 - length,
        Game::spec_spawn_y(0, length, field_size) == field_size.y as int / 2,
        Game::spec_spawn_dir(0) == Direction::MinusX,
        Game::spec_spawn_x(1, length, field_size) == field_size.x as int / 2,
        Game::spec_spawn_y(1, length, field_size) == field_size.y as int / 2 - length,
        Game::spec_spawn_dir(1) == Direction::MinusY,
        Game::spec_spawn_x(2, length, field_size) == field_size.x as int / 2 + length,
        Game::spec_spawn_y(2, length, field_size) == field_size.y as int / 2,
        Game::spec_spawn_dir(2) == Direction::PlusX,
        Game::spec_spawn_x(3, length, field_size) == field_size.x as int / 2,
        Game::spec_spawn_y(3, length, field_size) == field_size.y as int / 2 + length,
        Game::spec_spawn_dir(3) == Direction::PlusY,
{
}

/// Eating defers growth: a snake that moves onto a pizza comes out of the
/// move carrying a positive growth credit, so its next forward move
/// extends the body by one cell instead of dropping the tail.
pub proof fn lemma_eating_defers_growth(g: Game, i: int)
    requires
        0 <= i < g.num_players(),
        g.player_alive(i),
        g.snake_at(i).wf(),
        g.spec_ate(i),
    ensures
        g.spec_moved_snake(i).grow_counter > 0,
        g.spec_moved_snake(i).moved().body.len() == g.spec_moved_snake(i).body.len() + 1,
{
    crate::snake::lemma_move_forward_length(g.spec_moved_snake(i));
}

/// A dead player always predicts `Hold`, and so is never moved nor killed
/// again.
pub proof fn lemma_dead_player_holds(g: Game, i: int)
    requires
        0 <= i < g.num_players(),
        !g.player_alive(i),
    ensures
        g.spec_next_action(i) == ActionStep::Hold,
{
}

/// Two alive snakes whose predicted next heads coincide, that head lying
/// in the field and on no non-tail body cell, both resolve to `Hold`:
/// neither moves and neither dies that tick.
pub proof fn lemma_competing_heads_hold(g: Game, i: int, j: int)
    requires
        0 <= i < g.num_players(),
        0 <= j < g.num_players(),
        i != j,
        g.player_alive(i),
        g.player_alive(j),
        g.snake_at(i).next_x() == g.snake_at(j).next_x(),
        g.snake_at(i).next_y() == g.snake_at(j).next_y(),
        g.in_field(g.snake_at(i).next_x(), g.snake_at(i).next_y()),
        !g.cell_blocked(g.snake_at(i).next_x(), g.snake_at(i).next_y()),
    ensures
        g.spec_next_action(i) == ActionStep::Hold,
        g.spec_next_action(j) == ActionStep::Hold,
{
    assert(g.contests(i, j));
    assert(g.contests(j, i));
    assert(g.head_contested(i));
    assert(g.head_contested(j));
}

/// A snake moving into any non-tail body cell of any alive snake, its own
/// included, resolves to `Die`.
pub proof fn lemma_move_into_body_dies(g: Game, i: int, j: int, k: int)
    requires
        0 <= i < g.num_players(),
        g.player_alive(i),
        g.in_field(g.snake_at(i).next_x(), g.snake_at(i).next_y()),
        g.blocked_by(g.snake_at(i).next_x(), g.snake_at(i).next_y(), j, k),
    ensures
        g.spec_next_action(i) == ActionStep::Die,
{
    assert(g.cell_blocked(g.snake_at(i).next_x(), g.snake_at(i).next_y()));
}

/// A snake moving into a cell occupied only by a tail of some alive snake
/// resolves to `Move`, not `Die`: tail cells vacate during the same step.
pub proof fn lemma_move_into_tail_moves(g: Game, i: int, j: int)
    requires
        0 <= i < g.num_players(),
        g.player_alive(i),
        g.in_field(g.snake_at(i).next_x(), g.snake_at(i).next_y()),
        0 <= j < g.num_players(),
        g.player_alive(j),
        g.snake_at(j).body.len() >= 1,
        g.snake_at(j).body.last().x == g.snake_at(i).next_x(),
        g.snake_at(j).body.last().y == g.snake_at(i).next_y(),
        !g.cell_blocked(g.snake_at(i).next_x(), g.snake_at(i).next_y()),
        !g.head_contested(i),
    ensures
        g.spec_next_action(i) == ActionStep::Move,
{
}

/// The kind of body part at index `k` of a body of length `len`: the head
/// comes first, the tail last.
pub open spec fn body_part_kind(k: int, len: int) -> SnakeBodyPart {
    if k == 0 {
        SnakeBodyPart::Head
    } else if k == len - 1 {
        SnakeBodyPart::Tail
    } else {
        SnakeBodyPart::Body
    }
}

/// The cell at `(x, y)` after stamping the first `upto` body cells of the
/// snake of player `pi` over `below`; a later body cell overwrites an
/// earlier one.
pub open spec fn snake_stamp(
    body: Seq<Vector2i>,
    pi: int,
    upto: int,
    below: GridCell,
    x: int,
    y: int,
) -> GridCell
    decreases upto,
{
    if upto <= 0 {
        below
    } else if body[upto - 1].x == x && body[upto - 1].y == y {
        GridCell::Snake(
            SnakeRec {
                player_index: pi as usize,
                body_part: body_part_kind(upto - 1, body.len() as int),
            },
        )
    } else {
        snake_stamp(body, pi, upto - 1, below, x, y)
    }
}

/// Stamping body cells that all miss `(x, y)` leaves the cell unchanged.
proof fn lemma_snake_stamp_miss(
    body: Seq<Vector2i>,
    pi: int,
    upto: int,
    below: GridCell,
    x: int,
    y: int,
)
    requires
        forall|k: int| 0 <= k < upto ==> (#[trigger] body[k]).x != x || body[k].y != y,
    ensures
        snake_stamp(body, pi, upto, below, x, y) == below,
    decreases upto,
{
    if upto > 0 {
        lemma_snake_stamp_miss(body, pi, upto - 1, below, x, y);
    }
}

/// If body index `k` lies on `(x, y)` and no later index does, the stamp
/// shows body part `k`.
proof fn lemma_snake_stamp_hit(
    body: Seq<Vector2i>,
    pi: int,
    upto: int,
    below: GridCell,
    x: int,
    y: int,
    k: int,
)
    requires
        0 <= k < upto,
        body[k].x == x,
        body[k].y == y,
        forall|k2: int| k < k2 < upto ==> (#[trigger] body[k2]).x != x || body[k2].y != y,
    ensures
        snake_stamp(body, pi, upto, below, x, y) == GridCell::Snake(
            SnakeRec { player_index: pi as usize, body_part: body_part_kind(k, body.len() as int) },
        ),
    decreases upto,
{
    if k < upto - 1 {
        lemma_snake_stamp_hit(body, pi, upto - 1, below, x, y, k);
    }
}

/// Stamping players none of whose alive snakes covers `(x, y)` leaves the
/// cell as the first `lo` players left it.
proof fn lemma_players_stamp_unchanged_above(g: Game, lo: int, upto: int, x: int, y: int)
    requires
        0 <= lo <= upto,
        forall|j2: int, k2: int|
            #![trigger g.snake_at(j2).body[k2]]
            lo <= j2 < upto && g.player_alive(j2) && 0 <= k2 < g.snake_at(j2).body.len() ==> (
            g.snake_at(j2).body[k2].x != x || g.snake_at(j2).body[k2].y != y),
    ensures
        g.players_stamp(upto, x, y) == g.players_stamp(lo, x, y),
    decreases upto - lo,
{
    if lo < upto {
        lemma_players_stamp_unchanged_above(g, lo, upto - 1, x, y);
        if g.player_alive(upto - 1) {
            lemma_snake_stamp_miss(
                g.snake_at(upto - 1).body,
                upto - 1,
                g.snake_at(upto - 1).body.len() as int,
                g.players_stamp(upto - 1, x, y),
                x,
                y,
            );
        }
    }
}

/// When no two body cells of alive snakes coincide — the running invariant
/// the engine's collision rules maintain — the grid shows every body cell
/// of every alive snake under its own player index, the head cell tagged
/// `Head`, the tail cell `Tail`, and the cells between `Body`.
pub proof fn lemma_grid_shows_alive_snake(g: Game, j: int, k: int)
    requires
        forall|j1: int, k1: int, j2: int, k2: int|
            #![trigger g.snake_at(j1).body[k1], g.snake_at(j2).body[k2]]
            0 <= j1 < g.num_players() && g.player_alive(j1) && 0 <= k1 < g.snake_at(
                j1,
            ).body.len() && 0 <= j2 < g.num_players() && g.player_alive(j2) && 0 <= k2
                < g.snake_at(j2).body.len() && (j1 != j2 || k1 != k2) ==> g.snake_at(j1).body[k1]
                != g.snake_at(j2).body[k2],
        0 <= j < g.num_players(),
        g.player_alive(j),
        0 <= k < g.snake_at(j).body.len(),
    ensures
        g.spec_grid_cell(g.snake_at(j).body[k].x as int, g.snake_at(j).body[k].y as int)
            == GridCell::Snake(
            SnakeRec {
                player_index: j as usize,
                body_part: body_part_kind(k, g.snake_at(j).body.len() as int),
            },
        ),
{
    let c = g.snake_at(j).body[k];
    let x = c.x as int;
    let y = c.y as int;
    assert forall|j2: int, k2: int|
        #![trigger g.snake_at(j2).body[k2]]
        j + 1 <= j2 < g.num_players() && g.player_alive(j2) && 0 <= k2 < g.snake_at(
            j2,
        ).body.len() implies (g.snake_at(j2).body[k2].x != x || g.snake_at(j2).body[k2].y
        != y) by {
        assert(g.snake_at(j2).body[k2] != g.snake_at(j).body[k]);
    }
    lemma_players_stamp_unchanged_above(g, j + 1, g.num_players(), x, y);
    assert forall|k2: int| k < k2 < g.snake_at(j).body.len() implies (#[trigger] g.snake_at(
        j,
    ).body[k2]).x != x || g.snake_at(j).body[k2].y != y by {
        assert(g.snake_at(j).body[k2] != g.snake_at(j).body[k]);
    }
    assert(g.players.len() == g.players@.len());
    lemma_snake_stamp_hit(
        g.snake_at(j).body,
        j,
        g.snake_at(j).body.len() as int,
        g.players_stamp(j, x, y),
        x,
        y,
        k,
    );
}

/// When no alive snake covers a cell, the grid shows the pizza layer
/// there: `Pizza` exactly on pizza cells, `Empty` everywhere else.
pub proof fn lemma_grid_shows_pizza_layer(g: Game, x: int, y: int)
    requires
        forall|j2: int, k2: int|
            #![trigger g.snake_at(j2).body[k2]]
            0 <= j2 < g.num_players() && g.player_alive(j2) && 0 <= k2 < g.snake_at(
                j2,
            ).body.len() ==> (g.snake_at(j2).body[k2].x != x || g.snake_at(j2).body[k2].y != y),
    ensures
        g.spec_grid_cell(x, y) == g.base_cell(x, y),
{
    lemma_players_stamp_unchanged_above(g, 0, g.num_players(), x, y);
}

/// A stamped cell either shows what lay below or one of the stamped body
/// cells of the snake of player `pi`.
proof fn lemma_snake_stamp_cases(
    body: Seq<Vector2i>,
    pi: int,
    upto: int,
    below: GridCell,
    x: int,
    y: int,
)
    ensures
        snake_stamp(body, pi, upto, below, x, y) == below || exists|k: int|
            #![auto]
            0 <= k < upto && body[k].x == x && body[k].y == y && snake_stamp(
                body,
                pi,
                upto,
                below,
                x,
                y,
            ) == GridCell::Snake(
                SnakeRec {
                    player_index: pi as usize,
                    body_part: body_part_kind(k, body.len() as int),
                },
            ),
    decreases upto,
{
    if upto > 0 {
        if body[upto - 1].x == x && body[upto - 1].y == y {
            assert(0 <= upto - 1 < upto && body[upto - 1].x == x && body[upto - 1].y == y
                && snake_stamp(body, pi, upto, below, x, y) == GridCell::Snake(
                SnakeRec {
                    player_index: pi as usize,
                    body_part: body_part_kind(upto - 1, body.len() as int),
                },
            ));
        } else {
            lemma_snake_stamp_cases(body, pi, upto - 1, below, x, y);
        }
    }
}

/// Every snake cell the grid snapshot shows belongs to an alive player's
/// body: dead players contribute nothing to the grid.
pub proof fn lemma_grid_snake_cells_from_alive(g: Game, upto: int, x: int, y: int)
    requires
        0 <= upto <= g.num_players(),
    ensures
        g.players_stamp(upto, x, y) matches GridCell::Snake(rec) ==> exists|j: int, k: int|
            #![auto]
            0 <= j < upto && g.player_alive(j) && rec.player_index == j && 0 <= k < g.snake_at(
                j,
            ).body.len() && g.snake_at(j).body[k].x == x && g.snake_at(j).body[k].y == y
                && rec.body_part == body_part_kind(k, g.snake_at(j).body.len() as int),
    decreases upto,
{
    if upto > 0 {
        lemma_grid_snake_cells_from_alive(g, upto - 1, x, y);
        let below = g.players_stamp(upto - 1, x, y);
        let cur = g.players_stamp(upto, x, y);
        match cur {
            GridCell::Snake(rec) => {
                if g.player_alive(upto - 1) {
                    let body = g.snake_at(upto - 1).body;
                    lemma_snake_stamp_cases(body, upto - 1, body.len() as int, below, x, y);
                    if cur == below {
                        let (j, k) = choose|j: int, k: int|
                            #![auto]
                            0 <= j < upto - 1 && g.player_alive(j) && rec.player_index == j && 0
                                <= k < g.snake_at(j).body.len() && g.snake_at(j).body[k].x == x
                                && g.snake_at(j).body[k].y == y && rec.body_part == body_part_kind(
                                k,
                                g.snake_at(j).body.len() as int,
                            );
                        assert(0 <= j < upto && g.player_alive(j) && rec.player_index == j && 0 <= k
                            < g.snake_at(j).body.len() && g.snake_at(j).body[k].x == x
                            && g.snake_at(j).body[k].y == y && rec.body_part == body_part_kind(
                            k,
                            g.snake_at(j).body.len() as int,
                        ));
                    } else {
                        let k = choose|k: int|
                            #![auto]
                            0 <= k < body.len() as int && body[k].x == x && body[k].y == y && cur
                                == GridCell::Snake(
                                SnakeRec {
                                    player_index: (upto - 1) as usize,
                                    body_part: body_part_kind(k, body.len() as int),
                                },
                            );
                        assert(g.players.len() == g.players@.len());
                        assert(g.players@.len() <= usize::MAX);
                        assert(((upto - 1) as usize) as int == upto - 1);
                        let j = upto - 1;
                        assert(0 <= j < upto && g.player_alive(j) && rec.player_index == j && 0 <= k
                            < g.snake_at(j).body.len() && g.snake_at(j).body[k].x == x
                            && g.snake_at(j).body[k].y == y && rec.body_part == body_part_kind(
                            k,
                            g.snake_at(j).body.len() as int,
                        ));
                    }
                } else {
                    let (j, k) = choose|j: int, k: int|
                        #![auto]
                        0 <= j < upto - 1 && g.player_alive(j) && rec.player_index == j && 0 <= k
                            < g.snake_at(j).body.len() && g.snake_at(j).body[k].x == x
                            && g.snake_at(j).body[k].y == y && rec.body_part == body_part_kind(
                            k,
                            g.snake_at(j).body.len() as int,
                        );
                    assert(0 <= j < upto && g.player_alive(j) && rec.player_index == j && 0 <= k
                        < g.snake_at(j).body.len() && g.snake_at(j).body[k].x == x && g.snake_at(
                        j,
                    ).body[k].y == y && rec.body_part == body_part_kind(
                        k,
                        g.snake_at(j).body.len() as int,
                    ));
                }
            },
            _ => {},
        }
    }
}

/// Taking more players into account can only increase the total length of
/// the alive snakes.
proof fn lemma_total_alive_length_mono(g: Game, j1: int, j2: int)
    requires
        0 <= j1 <= j2,
    ensures
        g.total_alive_length(j1) <= g.total_alive_length(j2),
    decreases j2 - j1,
{
    if j1 < j2 {
        lemma_total_alive_length_mono(g, j1, j2 - 1);
    }
}

impl Game {
    /// Execute a single update step, in two phases: first the action of
    /// every player is predicted from the pre-step snapshot, then all
    /// actions are applied.  No prediction sees another player's applied
    /// move, so the outcome does not depend on the roster order: each
    /// player's post-step state is a function of the pre-step state alone.
    #[verifier::loop_isolation(false)]
    pub fn step(&mut self)
        requires
            old(self).wf(),
            old(self).next_heads_fit(),
            forall|i: int|
                0 <= i < old(self).num_players() && #[trigger] old(self).player_alive(i) ==> old(
                    self,
                ).players@[i]@.score < u32::MAX,
        ensures
            final(self).field_size == old(self).field_size,
            final(self).grid == old(self).grid,
            final(self).num_players() == old(self).num_players(),
            forall|j: int|
                0 <= j < old(self).num_players() ==> old(self).step_outcome(
                    #[trigger] final(self).players@[j]@,
                    j,
                ),
            forall|p: Vector2i|
                #[trigger] final(self).pizzas@.contains(p) ==> old(self).pizzas@.contains(p),
            forall|p: Vector2i|
                #[trigger] old(self).pizzas@.contains(p) ==> (final(self).pizzas@.contains(p)
                    <==> !eaten_before(*old(self), old(self).num_players(), p)),
            final(self).pizzas@ == surviving_pizzas(*old(self), old(self).num_players()),
            final(self).pizzas@.len() <= old(self).pizzas@.len(),
            final(self).wf(),
    {
        let ghost g0 = *old(self);
        // Predict the step action for each player.  Dead players just hold.
        let mut actions: Vec<ActionStep> = Vec::new();
        let mut i: usize = 0;
        while i < self.players.len()
            invariant
                *self == g0,
                i <= g0.num_players(),
                actions@.len() == i as int,
                forall|j: int| 0 <= j < i as int ==> actions@[j] == g0.spec_next_action(j),
            decreases g0.num_players() - i,
        {
            let action = self.predict_next_action(i);
            actions.push(action);
            i = i + 1;
        }
        // Apply the actions.
        proof {
            let f0 = |p: Vector2i| !eaten_before(g0, 0, p);
            assert forall|i2: int| 0 <= i2 < g0.pizzas@.len() implies f0(
                #[trigger] g0.pizzas@[i2],
            ) by {
                if eaten_before(g0, 0, g0.pizzas@[i2]) {
                    let j = choose|j: int| j < 0 && mover_eats(g0, j, g0.pizzas@[i2]);
                    assert(false);
                }
            }
            lemma_filter_all_true(g0.pizzas@, f0);
        }
        let mut i: usize = 0;
        while i < self.players.len()
            invariant
                self.wf(),
                self.field_size == g0.field_size,
                self.grid == g0.grid,
                self.num_players() == g0.num_players(),
                i <= g0.num_players(),
                actions@.len() == g0.num_players(),
                forall|j: int| 0 <= j < g0.num_players() ==> actions@[j] == g0.spec_next_action(j),
                forall|j: int|
                    i as int <= j < g0.num_players() ==> self.players@[j]@ == g0.players@[j]@,
                forall|j: int|
                    0 <= j < i as int ==> g0.step_outcome(#[trigger] self.players@[j]@, j),
                forall|p: Vector2i| #[trigger] self.pizzas@.contains(p) ==> g0.pizzas@.contains(p),
                forall|p: Vector2i|
                    #[trigger] g0.pizzas@.contains(p) ==> (self.pizzas@.contains(p)
                        <==> !eaten_before(g0, i as int, p)),
                self.pizzas@ == surviving_pizzas(g0, i as int),
                self.pizzas@.len() <= g0.pizzas@.len(),
            decreases g0.num_players() - i,
        {
            let ghost ii = i as int;
            let ghost pre = *self;
            let action = actions[i];
            if action == ActionStep::Move {
                proof {
                    assert(g0.spec_next_action(ii) == ActionStep::Move);
                    assert(g0.player_alive(ii));
                    assert(self.players@[ii]@ == g0.players@[ii]@);
                    assert(g0.snake_at(ii).next_head_fits());
                }
                self.move_player(i);
                proof {
                    let h = g0.snake_at(ii).next_head();
                    assert(pre.snake_at(ii) == g0.snake_at(ii));
                    assert(!eaten_before(g0, ii, h)) by {
                        if eaten_before(g0, ii, h) {
                            let j = choose|j: int| j < ii && mover_eats(g0, j, h);
                            lemma_movers_distinct_heads(g0, ii, j);
                            assert(false);
                        }
                    }
                    assert(pre.spec_ate(ii) == g0.spec_ate(ii)) by {
                        if g0.pizzas@.contains(h) {
                            assert(pre.pizzas@.contains(h) <==> !eaten_before(g0, ii, h));
                        }
                    }
                    assert(pre.spec_moved_snake(ii) == g0.spec_moved_snake(ii));
                    assert(g0.step_outcome(self.players@[ii]@, ii));
                    assert forall|p: Vector2i| #[trigger]
                        g0.pizzas@.contains(p) implies (self.pizzas@.contains(p) <==> !eaten_before(
                        g0,
                        ii + 1,
                        p,
                    )) by {
                        lemma_eaten_before_step(g0, ii, p);
                        assert(pre.pizzas@.contains(p) <==> !eaten_before(g0, ii, p));
                        if pre.spec_ate(ii) {
                            if pre.pizzas@.contains(p) {
                                assert(self.pizzas@.contains(p) <==> p != h);
                            } else {
                                assert(!self.pizzas@.contains(p));
                            }
                        } else {
                            assert(self.pizzas@ == pre.pizzas@);
                            assert(!g0.pizzas@.contains(h));
                            if p == h {
                                assert(!g0.pizzas@.contains(p));
                            }
                        }
                    }
                    assert forall|p: Vector2i| #[trigger]
                        self.pizzas@.contains(p) implies g0.pizzas@.contains(p) by {
                        if pre.spec_ate(ii) {
                            assert(pre.pizzas@.contains(p));
                        } else {
                            assert(self.pizzas@ == pre.pizzas@);
                        }
                    }
                    let f_seen = |p: Vector2i| !eaten_before(g0, ii, p);
                    let f_next = |p: Vector2i| !eaten_before(g0, ii + 1, p);
                    if pre.spec_ate(ii) {
                        let k = choose|k: int|
                            0 <= k < pre.pizzas@.len() && pre.pizzas@[k] == h && self.pizzas@
                                == pre.pizzas@.remove(k);
                        lemma_remove_is_filter(pre.pizzas@, k, h);
                        let f_not_h = |p: Vector2i| p != h;
                        assert forall|a: Vector2i| #[trigger]
                            f_next(a) <==> (f_seen(a) && f_not_h(a)) by {
                            lemma_eaten_before_step(g0, ii, a);
                        }
                        lemma_filter_compose(g0.pizzas@, f_seen, f_not_h, f_next);
                        assert(self.pizzas@ == surviving_pizzas(g0, ii + 1));
                    } else {
                        assert forall|i2: int| 0 <= i2 < g0.pizzas@.len() implies (f_seen(
                            #[trigger] g0.pizzas@[i2],
                        ) <==> f_next(g0.pizzas@[i2])) by {
                            let p = g0.pizzas@[i2];
                            lemma_eaten_before_step(g0, ii, p);
                            if mover_eats(g0, ii, p) {
                                assert(p == h);
                                assert(g0.pizzas@.contains(p));
                                assert(false);
                            }
                        }
                        lemma_filter_congruence(g0.pizzas@, f_seen, f_next);
                        assert(self.pizzas@ == surviving_pizzas(g0, ii + 1));
                    }
                }
            } else if action == ActionStep::Die {
                let player = Game::player_at_mut(&mut self.players, i);
                player.kill();
                proof {
                    assert(self.players@[ii]@ == (PlayerModel {
                        snake: None,
                        score: g0.players@[ii]@.score,
                    }));
                    assert(g0.step_outcome(self.players@[ii]@, ii));
                    lemma_wf_alive_unchanged(pre, *self);
                    assert forall|p: Vector2i| #[trigger]
                        g0.pizzas@.contains(p) implies (self.pizzas@.contains(p) <==> !eaten_before(
                        g0,
                        ii + 1,
                        p,
                    )) by {
                        lemma_eaten_before_step(g0, ii, p);
                        assert(!mover_eats(g0, ii, p));
                    }
                    let f_seen = |p: Vector2i| !eaten_before(g0, ii, p);
                    let f_next = |p: Vector2i| !eaten_before(g0, ii + 1, p);
                    assert forall|i2: int| 0 <= i2 < g0.pizzas@.len() implies (f_seen(
                        #[trigger] g0.pizzas@[i2],
                    ) <==> f_next(g0.pizzas@[i2])) by {
                        lemma_eaten_before_step(g0, ii, g0.pizzas@[i2]);
                        assert(!mover_eats(g0, ii, g0.pizzas@[i2]));
                    }
                    lemma_filter_congruence(g0.pizzas@, f_seen, f_next);
                }
            } else {
                proof {
                    assert(g0.spec_next_action(ii) == ActionStep::Hold);
                    assert(g0.step_outcome(self.players@[ii]@, ii));
                    assert forall|p: Vector2i| #[trigger]
                        g0.pizzas@.contains(p) implies (self.pizzas@.contains(p) <==> !eaten_before(
                        g0,
                        ii + 1,
                        p,
                    )) by {
                        lemma_eaten_before_step(g0, ii, p);
                        assert(!mover_eats(g0, ii, p));
                    }
                    let f_seen = |p: Vector2i| !eaten_before(g0, ii, p);
                    let f_next = |p: Vector2i| !eaten_before(g0, ii + 1, p);
                    assert forall|i2: int| 0 <= i2 < g0.pizzas@.len() implies (f_seen(
                        #[trigger] g0.pizzas@[i2],
                    ) <==> f_next(g0.pizzas@[i2])) by {
                        lemma_eaten_before_step(g0, ii, g0.pizzas@[i2]);
                        assert(!mover_eats(g0, ii, g0.pizzas@[i2]));
                    }
                    lemma_filter_congruence(g0.pizzas@, f_seen, f_next);
                }
            }
            i = i + 1;
        }
    }

    /// Whether pizza `k` lies on cell `(x, y)`.
    pub open spec fn pizza_at(self, k: int, x: int, y: int) -> bool {
        &&& 0 <= k < self.pizzas@.len()
        &&& self.pizzas@[k].x == x
        &&& self.pizzas@[k].y == y
    }

    /// The cell at `(x, y)` before any snake is stamped: a pizza cell or
    /// an empty cell.
    pub open spec fn base_cell(self, x: int, y: int) -> GridCell {
        if exists|k: int| self.pizza_at(k, x, y) {
            GridCell::Pizza(PizzaRec {  })
        } else {
            GridCell::Empty
        }
    }

    /// The cell at `(x, y)` after stamping the snakes of the first `upto`
    /// players over the pizza layer.  Dead players contribute nothing, and
    /// a later player's cells overwrite an earlier player's.
    pub open spec fn players_stamp(self, upto: int, x: int, y: int) -> GridCell
        decreases upto,
    {
        if upto <= 0 {
            self.base_cell(x, y)
        } else {
            let below = self.players_stamp(upto - 1, x, y);
            if self.player_alive(upto - 1) {
                snake_stamp(
                    self.snake_at(upto - 1).body,
                    upto - 1,
                    self.snake_at(upto - 1).body.len() as int,
                    below,
                    x,
                    y,
                )
            } else {
                below
            }
        }
    }

    /// What the grid snapshot shows at `(x, y)`: a pure function of the
    /// field size, the alive snakes' bodies, and the pizza positions.
    pub open spec fn spec_grid_cell(self, x: int, y: int) -> GridCell {
        self.players_stamp(self.num_players(), x, y)
    }

    /// Generate the grid that represents the current state of the game:
    /// an empty field with the pizzas stamped first and then every alive
    /// snake's body, heads and tails tagged.
    #[verifier::loop_isolation(false)]
    pub fn generate_grid(&self) -> (r: Grid)
        requires
            self.wf(),
            self.all_in_field(),
            self.field_size.x >= 0,
            self.field_size.y >= 0,
            self.field_size.x * self.field_size.y <= isize::MAX,
        ensures
            r.wf(),
            grid_dim(r) == (self.field_size.x as int, self.field_size.y as int),
            forall|x: int, y: int|
                self.in_field(x, y) ==> #[trigger] r.at(x, y) == self.spec_grid_cell(x, y),
    {
        let w = self.field_size.x as usize;
        let h = self.field_size.y as usize;
        let mut grid = Grid::from_elem(w, h, GridCell::Empty);
        // Stamp the pizzas.
        let mut k: usize = 0;
        while k < self.pizzas.len()
            invariant
                grid.wf(),
                grid_dim(grid) == (w as int, h as int),
                k <= self.pizzas@.len(),
                forall|x: int, y: int|
                    self.in_field(x, y) ==> #[trigger] grid.at(x, y) == (
                    if exists|kk: int| kk < k as int && self.pizza_at(kk, x, y) {
                        GridCell::Pizza(PizzaRec {  })
                    } else {
                        GridCell::Empty
                    }),
            decreases self.pizzas@.len() - k,
        {
            let p = self.pizzas[k];
            proof {
                assert(self.cell_in_field(self.pizzas@[k as int]));
            }
            let ghost gprev = grid;
            grid.set(p.x as usize, p.y as usize, GridCell::Pizza(PizzaRec {  }));
            proof {
                assert forall|x: int, y: int| self.in_field(x, y) implies #[trigger] grid.at(x, y)
                    == (if exists|kk: int| kk < k as int + 1 && self.pizza_at(kk, x, y) {
                    GridCell::Pizza(PizzaRec {  })
                } else {
                    GridCell::Empty
                }) by {
                    if x == p.x as int && y == p.y as int {
                        assert(self.pizza_at(k as int, x, y));
                        assert((k as int) < k as int + 1 && self.pizza_at(k as int, x, y));
                    } else {
                        assert(grid.at(x, y) == gprev.at(x, y));
                        if exists|kk: int| kk < k as int + 1 && self.pizza_at(kk, x, y) {
                            let kk = choose|kk: int| kk < k as int + 1 && self.pizza_at(kk, x, y);
                            assert(kk != k as int);
                            assert(kk < k as int && self.pizza_at(kk, x, y));
                        }
                    }
                }
            }
            k = k + 1;
        }
        proof {
            assert forall|x: int, y: int| self.in_field(x, y) implies #[trigger] grid.at(x, y)
                == self.players_stamp(0, x, y) by {
                if exists|kk: int| self.pizza_at(kk, x, y) {
                    let kk = choose|kk: int| self.pizza_at(kk, x, y);
                    assert(kk < self.pizzas@.len() as int && self.pizza_at(kk, x, y));
                }
            }
        }
        // Stamp every alive snake, the head and tail cells tagged as such.
        let mut j: usize = 0;
        while j < self.players.len()
            invariant
                grid.wf(),
                grid_dim(grid) == (w as int, h as int),
                j <= self.num_players(),
                forall|x: int, y: int|
                    self.in_field(x, y) ==> #[trigger] grid.at(x, y) == self.players_stamp(
                        j as int,
                        x,
                        y,
                    ),
            decreases self.num_players() - j,
        {
            if self.players[j].alive() {
                let snake = match &self.players[j].snake {
                    Some(s) => s,
                    None => vstd::pervasive::unreached(),
                };
                proof {
                    assert(self.player_alive(j as int));
                    assert(self.snake_at(j as int).wf());
                }
                let snake_len = snake.body.len();
                let mut t: usize = 0;
                while t < snake_len
                    invariant
                        j < self.num_players(),
                        self.player_alive(j as int),
                        snake@ == self.snake_at(j as int),
                        snake_len == snake.body@.len(),
                        grid.wf(),
                        grid_dim(grid) == (w as int, h as int),
                        t <= snake_len,
                        forall|x: int, y: int|
                            self.in_field(x, y) ==> #[trigger] grid.at(x, y) == snake_stamp(
                                self.snake_at(j as int).body,
                                j as int,
                                t as int,
                                self.players_stamp(j as int, x, y),
                                x,
                                y,
                            ),
                    decreases snake_len - t,
                {
                    let part = snake.body[t];
                    let cell = if t == 0 {
                        GridCell::Snake(
                            SnakeRec { player_index: j, body_part: SnakeBodyPart::Head },
                        )
                    } else if t == snake_len - 1 {
                        GridCell::Snake(
                            SnakeRec { player_index: j, body_part: SnakeBodyPart::Tail },
                        )
                    } else {
                        GridCell::Snake(
                            SnakeRec { player_index: j, body_part: SnakeBodyPart::Body },
                        )
                    };
                    proof {
                        assert(self.cell_in_field(self.snake_at(j as int).body[t as int]));
                        assert(cell == GridCell::Snake(
                            SnakeRec {
                                player_index: j,
                                body_part: body_part_kind(t as int, snake_len as int),
                            },
                        ));
                    }
                    let ghost gprev = grid;
                    grid.set(part.x as usize, part.y as usize, cell);
                    proof {
                        assert forall|x: int, y: int| self.in_field(x, y) implies #[trigger] grid.at(
                            x,
                            y,
                        ) == snake_stamp(
                            self.snake_at(j as int).body,
                            j as int,
                            t as int + 1,
                            self.players_stamp(j as int, x, y),
                            x,
                            y,
                        ) by {
                            if x == part.x as int && y == part.y as int {
                            } else {
                                assert(grid.at(x, y) == gprev.at(x, y));
                            }
                        }
                    }
                    t = t + 1;
                }
            }
            j = j + 1;
        }
        grid
    }

    /// Total number of cells covered by the alive snakes among the first
    /// `upto` players.
    pub open spec fn total_alive_length(self, upto: int) -> int
        decreases upto,
    {
        if upto <= 0 {
            0
        } else {
            self.total_alive_length(upto - 1) + if self.player_alive(upto - 1) {
                self.snake_at(upto - 1).body.len() as int
            } else {
                0int
            }
        }
    }

    /// Returns the number of empty cells in the field: the field area less
    /// the pizzas and the cells of every alive snake.
    #[verifier::loop_isolation(false)]
    pub fn num_empty_cells(&self) -> (r: i32)
        requires
            self.wf(),
            self.field_size.x >= 0,
            self.field_size.y >= 0,
            self.field_size.x * self.field_size.y <= i32::MAX,
            self.pizzas@.len() + self.total_alive_length(self.num_players()) <= i32::MAX,
        ensures
            r == self.field_size.x * self.field_size.y - self.pizzas@.len()
                - self.total_alive_length(self.num_players()),
    {
        proof {
            assert(self.field_size.x * self.field_size.y >= 0) by (nonlinear_arith)
                requires
                    self.field_size.x >= 0,
                    self.field_size.y >= 0,
            ;
            lemma_total_alive_length_mono(*self, 0, self.num_players());
        }
        let mut num: i32 = self.field_size.x * self.field_size.y;
        // Subtract the pizzas.
        num = num - self.pizzas.len() as i32;
        // Subtract the length of every snake that is alive.
        let mut j: usize = 0;
        while j < self.players.len()
            invariant
                j <= self.num_players(),
                num == self.field_size.x * self.field_size.y - self.pizzas@.len()
                    - self.total_alive_length(j as int),
            decreases self.num_players() - j,
        {
            proof {
                lemma_total_alive_length_mono(*self, 0, j as int);
                lemma_total_alive_length_mono(*self, j as int + 1, self.num_players());
            }
            if self.players[j].alive() {
                let snake = match &self.players[j].snake {
                    Some(s) => s,
                    None => vstd::pervasive::unreached(),
                };
                num = num - snake.body.len() as i32;
            }
            j = j + 1;
        }
        num
    }

    /// Calculate a spawn position for a new pizza: an empty grid cell,
    /// chosen uniformly among the first `estimated_free_cells` empty cells
    /// in scan order.  The caller guarantees that the estimate is positive
    /// and not larger than the number of empty cells actually in the grid.
    /// Whatever number the random draw yields, the result is one of the
    /// grid's empty cells.
    pub fn calc_spaw_pos_for_pizza(grid: &Grid, estimated_free_cells: usize) -> (r: Vector2i)
        requires
            grid.wf(),
            grid_dim(*grid).0 <= i32::MAX,
            grid_dim(*grid).1 <= i32::MAX,
            1 <= estimated_free_cells,
            estimated_free_cells <= crate::grid::empty_cells_in_order(*grid).len(),
        ensures
            exists|n: int|
                0 <= n < estimated_free_cells && r == crate::grid::empty_cells_in_order(*grid)[n],
            0 <= r.x < grid_dim(*grid).0,
            0 <= r.y < grid_dim(*grid).1,
            grid.at(r.x as int, r.y as int) == GridCell::Empty,
    {
        // Randomly choose which free cell to take.
        let free_cell_index = (rand::random::<u64>() % (estimated_free_cells as u64)) as usize;
        let r = grid.nth_empty_cell(free_cell_index);
        proof {
            let n = free_cell_index as int;
            assert(0 <= n < estimated_free_cells && r == crate::grid::empty_cells_in_order(
                *grid,
            )[n]);
            crate::grid::lemma_empty_cells_are_empty(*grid, n);
        }
        r
    }

    /// Returns whether any player is still alive; the game is over when
    /// none is.
    pub fn any_alive(&self) -> (r: bool)
        ensures
            r == exists|i: int| 0 <= i < self.num_players() && self.player_alive(i),
    {
        let mut i: usize = 0;
        while i < self.players.len()
            invariant
                i <= self.players@.len(),
                forall|j: int| 0 <= j < i as int ==> !self.player_alive(j),
            decreases self.players@.len() - i,
        {
            if self.players[i].alive() {
                proof {
                    assert(self.player_alive(i as int));
                }
                return true;
            }
            i = i + 1;
        }
        false
    }
}

} // verus!
