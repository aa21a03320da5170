//! A player wraps a snake with a score and an alive/dead status.  Direction
//! intents arrive from outside the engine and are applied in order, once per
//! tick.

use vstd::prelude::*;

use crate::base::Direction;
use crate::base::Vector2i;
use crate::events::PlayerSummary;
use crate::snake::Snake;
use crate::snake::SnakeModel;

verus! {

/// The mathematical model of a player: its snake (absent when dead, a
/// terminal state) and its score.
pub ghost struct PlayerModel {
    pub snake: Option<SnakeModel>,
    pub score: int,
}

impl PlayerModel {
    /// A snake turned by a batch of direction intents, applied in order:
    /// later intents override earlier ones, and a reversal into the neck is
    /// ignored.
    pub open spec fn applied_intents(s: SnakeModel, intents: Seq<Direction>) -> SnakeModel
        decreases intents.len(),
    {
        if intents.len() == 0 {
            s
        } else {
            PlayerModel::applied_intents(s, intents.drop_last()).turned(intents.last())
        }
    }
}

/// The object that stores the data associated with a single player in the
/// game.  The snake is absent exactly when the player is dead.
#[derive(Debug)]
pub struct Player {
    pub snake: Option<Snake>,
    pub score: u32,
}

impl View for Player {
    type V = PlayerModel;

    open spec fn view(&self) -> PlayerModel {
        PlayerModel {
            snake: match self.snake {
                Some(s) => Some(s@),
                None => None,
            },
            score: self.score as int,
        }
    }
}

impl Player {
    /// Create a player with a fresh default snake and a zero score.
    pub fn new() -> (r: Player)
        ensures
            r@.snake == Some(
                SnakeModel {
                    look_direction: Direction::PlusX,
                    body: SnakeModel::spawn_body(
                        Vector2i { x: 0, y: 0 },
                        Direction::PlusX,
                        crate::game::INITIAL_LENGTH as int,
                    ),
                    grow_counter: 0,
                },
            ),
            r@.score == 0,
    {
        Player {
            snake: Some(
                Snake::new(Vector2i::new(0, 0), Direction::PlusX, crate::game::INITIAL_LENGTH),
            ),
            score: 0,
        }
    }

    /// Apply a batch of pending direction intents to the snake, in the
    /// order they were received.  A dead player discards its intents.
    pub fn read_inputs(&mut self, inputs: &Vec<Direction>)
        requires
            old(self)@.snake is Some ==> old(self)@.snake.unwrap().wf(),
        ensures
            old(self)@.snake is Some ==> final(self)@ == (PlayerModel {
                snake: Some(
                    PlayerModel::applied_intents(old(self)@.snake.unwrap(), inputs@),
                ),
                score: old(self)@.score,
            }),
            old(self)@.snake is None ==> final(self)@ == old(self)@,
    {
        let mut i: usize = 0;
        while i < inputs.len()
            invariant
                i <= inputs@.len(),
                old(self)@.snake is Some ==> {
                    &&& self@.snake == Some(
                        PlayerModel::applied_intents(old(self)@.snake.unwrap(), inputs@.take(i as int)),
                    )
                    &&& self@.snake.unwrap().wf()
                    &&& self@.score == old(self)@.score
                },
                old(self)@.snake is None ==> self@ == old(self)@,
            decreases inputs@.len() - i,
        {
            match &mut self.snake {
                Some(snake) => {
                    snake.try_set_look_direction(inputs[i]);
                },
                None => {},
            }
            proof {
                if old(self)@.snake is Some {
                    assert(inputs@.take(i + 1).drop_last() =~= inputs@.take(i as int));
                    assert(inputs@.take(i + 1).last() == inputs@[i as int]);
                }
            }
            i = i + 1;
        }
        proof {
            if old(self)@.snake is Some {
                assert(inputs@.take(inputs@.len() as int) =~= inputs@);
            }
        }
    }

    /// Returns whether the player is alive.
    pub fn alive(&self) -> (r: bool)
        ensures
            r == (self@.snake is Some),
    {
        self.snake.is_some()
    }

    /// Kills the player: its snake is discarded, a terminal transition.
    pub fn kill(&mut self)
        ensures
            final(self)@ == (PlayerModel { snake: None, score: old(self)@.score }),
    {
        self.snake = None;
    }

    /// Generates the short event summary for this player.
    pub fn summary(&self) -> (r: PlayerSummary)
        ensures
            r.score == self@.score,
            r.alive == (self@.snake is Some),
    {
        PlayerSummary { score: self.score, alive: self.snake.is_some() }
    }
}

} // verus!
