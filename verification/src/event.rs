//! Player input and what one round of play does with it.

use vstd::prelude::*;
use crate::board::{Board, BoardView};

verus! {

/// A key press as the game sees it.
#[derive(Clone, Copy, Debug, PartialEq, Eq, Structural)]
pub enum Key {
    Up,
    Down,
    Left,
    Right,
    /// A key that types a character.
    Char(char),
    /// Any other key, and any input that is no key press.
    Other,
}

/// What the player asks for.
#[derive(Clone, Copy, Debug, PartialEq, Eq, Structural)]
pub enum InputEvent {
    MoveUp,
    MoveDown,
    MoveLeft,
    MoveRight,
    /// Reveal the cell under the cursor.
    Reveal,
    /// Toggle the flag on the cell under the cursor.
    Flag,
    Quit,
}

/// Where the game stands after a round.
#[derive(Clone, Copy, Debug, PartialEq, Eq, Structural)]
pub enum Outcome {
    /// The game goes on.
    Playing,
    /// Every cell without a mine is revealed.
    Won,
    /// A mine was revealed.
    Lost,
    /// The player left the game.
    Quit,
}

/// The key bindings: arrows move the cursor, space reveals, `f` flags and
/// `q` quits. Every other key means nothing.
pub open spec fn event_for(key: Key) -> Option<InputEvent> {
    match key {
        Key::Up => Some(InputEvent::MoveUp),
        Key::Down => Some(InputEvent::MoveDown),
        Key::Left => Some(InputEvent::MoveLeft),
        Key::Right => Some(InputEvent::MoveRight),
        Key::Char(c) => if c == ' ' {
            Some(InputEvent::Reveal)
        } else if c == 'f' {
            Some(InputEvent::Flag)
        } else if c == 'q' {
            Some(InputEvent::Quit)
        } else {
            None
        },
        Key::Other => None,
    }
}

impl InputEvent {
    /// The event that a key stands for, if any.
    pub fn from_key(key: Key) -> (event: Option<InputEvent>)
        ensures
            event == event_for(key),
    {
        match key {
            Key::Up => Some(InputEvent::MoveUp),
            Key::Down => Some(InputEvent::MoveDown),
            Key::Left => Some(InputEvent::MoveLeft),
            Key::Right => Some(InputEvent::MoveRight),
            Key::Char(c) => if c == ' ' {
                Some(InputEvent::Reveal)
            } else if c == 'f' {
                Some(InputEvent::Flag)
            } else if c == 'q' {
                Some(InputEvent::Quit)
            } else {
                None
            },
            Key::Other => None,
        }
    }
}

impl BoardView {
    /// The board after the player's request has been carried out. Reveal and
    /// flag act on the cell under the cursor; quitting changes nothing.
    pub open spec fn after_event(self, event: InputEvent) -> BoardView {
        match event {
            InputEvent::MoveUp => self.after_move_up(),
            InputEvent::MoveDown => self.after_move_down(),
            InputEvent::MoveLeft => self.after_move_left(),
            InputEvent::MoveRight => self.after_move_right(),
            InputEvent::Reveal => self.after_reveal(self.cursor.0, self.cursor.1),
            InputEvent::Flag => self.after_flag(self.cursor.0, self.cursor.1),
            InputEvent::Quit => self,
        }
    }

    /// The board after the win check: a won game is over.
    pub open spec fn settled(self) -> BoardView {
        if self.won() {
            BoardView { game_over: true, ..self }
        } else {
            self
        }
    }

    /// The board after one round of play on `key`: the request is carried
    /// out, if the key stands for one, and the win check follows. Quitting
    /// skips both.
    pub open spec fn after_key(self, key: Key) -> BoardView {
        match event_for(key) {
            Some(InputEvent::Quit) => self,
            Some(event) => self.after_event(event).settled(),
            None => self.settled(),
        }
    }

    /// The round on `key` reveals a mine.
    pub open spec fn hits_mine(self, key: Key) -> bool {
        event_for(key) == Some(InputEvent::Reveal) && self.grid[self.cursor.0][self.cursor.1].mine
    }

    /// Where the game stands after one round of play on `key`. A round that
    /// reveals a mine is lost, whatever else holds; otherwise a board with
    /// every mine-free cell revealed is won; a game that is over for any
    /// other reason counts as lost.
    pub open spec fn outcome_of(self, key: Key) -> Outcome {
        if event_for(key) == Some(InputEvent::Quit) {
            Outcome::Quit
        } else if self.hits_mine(key) {
            Outcome::Lost
        } else if self.after_key(key).won() {
            Outcome::Won
        } else if self.after_key(key).game_over {
            Outcome::Lost
        } else {
            Outcome::Playing
        }
    }
}

impl Board {
    /// Carries out the player's request. Reveal and flag act on the cell
    /// under the cursor; quitting changes nothing.
    pub fn apply(&mut self, event: InputEvent)
        requires
            old(self).wf(),
        ensures
            final(self).wf(),
            final(self)@ == old(self)@.after_event(event),
    {
        match event {
            InputEvent::MoveUp => self.move_up(),
            InputEvent::MoveDown => self.move_down(),
            InputEvent::MoveLeft => self.move_left(),
            InputEvent::MoveRight => self.move_right(),
            InputEvent::Reveal => {
                let (x, y) = self.cursor();
                self.reveal_cell(x, y)
            },
            InputEvent::Flag => {
                let (x, y) = self.cursor();
                self.flag(x, y)
            },
            InputEvent::Quit => {},
        }
    }

    /// The win check: ends the game if it is won, and says whether it is.
    pub fn settle(&mut self) -> (won: bool)
        requires
            old(self).wf(),
        ensures
            final(self).wf(),
            final(self)@ == old(self)@.settled(),
            won == old(self)@.won(),
    {
        let won = self.is_won();
        if won {
            self.set_game_over(true);
        }
        won
    }

    /// One round of play: carries out what `key` stands for, runs the win
    /// check and reports where the game stands.
    pub fn handle_key(&mut self, key: Key) -> (outcome: Outcome)
        requires
            old(self).wf(),
        ensures
            final(self).wf(),
            final(self)@ == old(self)@.after_key(key),
            outcome == old(self)@.outcome_of(key),
            outcome is Quit ==> final(self)@ == old(self)@,
            outcome is Playing ==> !final(self)@.game_over,
            outcome is Won || outcome is Lost ==> final(self)@.game_over,
    {
        let event = InputEvent::from_key(key);
        let mut hit_mine = false;
        match event {
            Some(InputEvent::Quit) => {
                return Outcome::Quit;
            },
            Some(InputEvent::Reveal) => {
                let (x, y) = self.cursor();
                hit_mine = match self.cell(x, y) {
                    Some(cell) => cell.contains_mine(),
                    None => false,
                };
                self.apply(InputEvent::Reveal);
            },
            Some(other) => {
                self.apply(other);
            },
            None => {},
        }
        let won = self.settle();
        if hit_mine {
            Outcome::Lost
        } else if won {
            Outcome::Won
        } else if self.is_game_over() {
            Outcome::Lost
        } else {
            Outcome::Playing
        }
    }
}

} // verus!
