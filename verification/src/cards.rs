//! The movement cards.
//!
//! A card is a named pattern of relative steps, written from the point of view
//! of Red, who sits on row 4 and moves towards row 0. Blue uses the same
//! pattern turned by 180 degrees.

use vstd::prelude::*;

use crate::models::Player;

verus! {

/// A relative step on the board: rows grow towards Red's side, columns to the right.
#[derive(Clone, Copy, Debug, PartialEq, Eq, Hash, Structural)]
pub struct Offset {
    pub d_row: i8,
    pub d_col: i8,
}

/// The sixteen cards of the base game.
#[derive(Clone, Copy, Debug, PartialEq, Eq, Hash, Structural)]
pub enum Card {
    Tiger,
    Dragon,
    Frog,
    Rabbit,
    Crab,
    Elephant,
    Goose,
    Rooster,
    Monkey,
    Mantis,
    Horse,
    Ox,
    Crane,
    Boar,
    Eel,
    Cobra,
}

/// Shorthand for an offset in specifications.
pub open spec fn off(d_row: int, d_col: int) -> Offset {
    Offset { d_row: d_row as i8, d_col: d_col as i8 }
}

impl Card {
    /// The steps the card offers to Red, in the order in which moves are listed.
    pub open spec fn spec_moves(self) -> Seq<Offset> {
        match self {
            Card::Tiger => seq![off(-2, 0), off(1, 0)],
            Card::Dragon => seq![off(-1, -2), off(-1, 2), off(1, -1), off(1, 1)],
            Card::Frog => seq![off(0, -2), off(-1, -1), off(1, 1)],
            Card::Rabbit => seq![off(0, 2), off(-1, 1), off(1, -1)],
            Card::Crab => seq![off(0, -2), off(0, 2), off(-1, 0)],
            Card::Elephant => seq![off(0, -1), off(0, 1), off(-1, -1), off(-1, 1)],
            Card::Goose => seq![off(0, -1), off(-1, -1), off(0, 1), off(1, 1)],
            Card::Rooster => seq![off(0, -1), off(1, -1), off(0, 1), off(-1, 1)],
            Card::Monkey => seq![off(-1, -1), off(-1, 1), off(1, -1), off(1, 1)],
            Card::Mantis => seq![off(-1, -1), off(-1, 1), off(1, 0)],
            Card::Horse => seq![off(0, -1), off(-1, 0), off(1, 0)],
            Card::Ox => seq![off(0, 1), off(-1, 0), off(1, 0)],
            Card::Crane => seq![off(-1, 0), off(1, -1), off(1, 1)],
            Card::Boar => seq![off(0, -1), off(0, 1), off(-1, 0)],
            Card::Eel => seq![off(-1, -1), off(1, -1), off(0, 1)],
            Card::Cobra => seq![off(-1, 1), off(1, 1), off(0, -1)],
        }
    }

    /// The player whose stamp the card bears: the spare card's stamp names the
    /// player who opens the game.
    pub open spec fn spec_stamp(self) -> Player {
        match self {
            Card::Tiger | Card::Rabbit | Card::Crab | Card::Goose | Card::Monkey | Card::Ox
            | Card::Crane | Card::Eel => Player::Blue,
            _ => Player::Red,
        }
    }

    /// The steps the card offers to Red.
    pub fn moves(self) -> (r: Vec<Offset>)
        ensures
            r@ == self.spec_moves(),
    {
        let r = match self {
            Card::Tiger => vec![Offset { d_row: -2, d_col: 0 }, Offset { d_row: 1, d_col: 0 }],
            Card::Dragon => vec![
                Offset { d_row: -1, d_col: -2 },
                Offset { d_row: -1, d_col: 2 },
                Offset { d_row: 1, d_col: -1 },
                Offset { d_row: 1, d_col: 1 },
            ],
            Card::Frog => vec![
                Offset { d_row: 0, d_col: -2 },
                Offset { d_row: -1, d_col: -1 },
                Offset { d_row: 1, d_col: 1 },
            ],
            Card::Rabbit => vec![
                Offset { d_row: 0, d_col: 2 },
                Offset { d_row: -1, d_col: 1 },
                Offset { d_row: 1, d_col: -1 },
            ],
            Card::Crab => vec![
                Offset { d_row: 0, d_col: -2 },
                Offset { d_row: 0, d_col: 2 },
                Offset { d_row: -1, d_col: 0 },
            ],
            Card::Elephant => vec![
                Offset { d_row: 0, d_col: -1 },
                Offset { d_row: 0, d_col: 1 },
                Offset { d_row: -1, d_col: -1 },
                Offset { d_row: -1, d_col: 1 },
            ],
            Card::Goose => vec![
                Offset { d_row: 0, d_col: -1 },
                Offset { d_row: -1, d_col: -1 },
                Offset { d_row: 0, d_col: 1 },
                Offset { d_row: 1, d_col: 1 },
            ],
            Card::Rooster => vec![
                Offset { d_row: 0, d_col: -1 },
                Offset { d_row: 1, d_col: -1 },
                Offset { d_row: 0, d_col: 1 },
                Offset { d_row: -1, d_col: 1 },
            ],
            Card::Monkey => vec![
                Offset { d_row: -1, d_col: -1 },
                Offset { d_row: -1, d_col: 1 },
                Offset { d_row: 1, d_col: -1 },
                Offset { d_row: 1, d_col: 1 },
            ],
            Card::Mantis => vec![
                Offset { d_row: -1, d_col: -1 },
                Offset { d_row: -1, d_col: 1 },
                Offset { d_row: 1, d_col: 0 },
            ],
            Card::Horse => vec![
                Offset { d_row: 0, d_col: -1 },
                Offset { d_row: -1, d_col: 0 },
                Offset { d_row: 1, d_col: 0 },
            ],
            Card::Ox => vec![
                Offset { d_row: 0, d_col: 1 },
                Offset { d_row: -1, d_col: 0 },
                Offset { d_row: 1, d_col: 0 },
            ],
            Card::Crane => vec![
                Offset { d_row: -1, d_col: 0 },
                Offset { d_row: 1, d_col: -1 },
                Offset { d_row: 1, d_col: 1 },
            ],
            Card::Boar => vec![
                Offset { d_row: 0, d_col: -1 },
                Offset { d_row: 0, d_col: 1 },
                Offset { d_row: -1, d_col: 0 },
            ],
            Card::Eel => vec![
                Offset { d_row: -1, d_col: -1 },
                Offset { d_row: 1, d_col: -1 },
                Offset { d_row: 0, d_col: 1 },
            ],
            Card::Cobra => vec![
                Offset { d_row: -1, d_col: 1 },
                Offset { d_row: 1, d_col: 1 },
                Offset { d_row: 0, d_col: -1 },
            ],
        };
        assert(r@ =~= self.spec_moves());
        r
    }

    /// The card's place among the sixteen, from 0.
    pub open spec fn spec_ordinal(self) -> int {
        match self {
            Card::Tiger => 0,
            Card::Dragon => 1,
            Card::Frog => 2,
            Card::Rabbit => 3,
            Card::Crab => 4,
            Card::Elephant => 5,
            Card::Goose => 6,
            Card::Rooster => 7,
            Card::Monkey => 8,
            Card::Mantis => 9,
            Card::Horse => 10,
            Card::Ox => 11,
            Card::Crane => 12,
            Card::Boar => 13,
            Card::Eel => 14,
            Card::Cobra => 15,
        }
    }

    /// The card at place `n` among the sixteen, counted round the deck.
    pub open spec fn spec_nth(n: int) -> Card {
        let k = n % 16;
        if k == 0 {
            Card::Tiger
        } else if k == 1 {
            Card::Dragon
        } else if k == 2 {
            Card::Frog
        } else if k == 3 {
            Card::Rabbit
        } else if k == 4 {
            Card::Crab
        } else if k == 5 {
            Card::Elephant
        } else if k == 6 {
            Card::Goose
        } else if k == 7 {
            Card::Rooster
        } else if k == 8 {
            Card::Monkey
        } else if k == 9 {
            Card::Mantis
        } else if k == 10 {
            Card::Horse
        } else if k == 11 {
            Card::Ox
        } else if k == 12 {
            Card::Crane
        } else if k == 13 {
            Card::Boar
        } else if k == 14 {
            Card::Eel
        } else {
            Card::Cobra
        }
    }

    /// The card's name.
    pub open spec fn spec_name(self) -> Seq<char> {
        match self {
            Card::Tiger => "Tiger"@,
            Card::Dragon => "Dragon"@,
            Card::Frog => "Frog"@,
            Card::Rabbit => "Rabbit"@,
            Card::Crab => "Crab"@,
            Card::Elephant => "Elephant"@,
            Card::Goose => "Goose"@,
            Card::Rooster => "Rooster"@,
            Card::Monkey => "Monkey"@,
            Card::Mantis => "Mantis"@,
            Card::Horse => "Horse"@,
            Card::Ox => "Ox"@,
            Card::Crane => "Crane"@,
            Card::Boar => "Boar"@,
            Card::Eel => "Eel"@,
            Card::Cobra => "Cobra"@,
        }
    }

    /// The card's place among the sixteen, from 0.
    pub fn ordinal(self) -> (r: u8)
        ensures
            r == self.spec_ordinal(),
            r < 16,
    {
        match self {
            Card::Tiger => 0,
            Card::Dragon => 1,
            Card::Frog => 2,
            Card::Rabbit => 3,
            Card::Crab => 4,
            Card::Elephant => 5,
            Card::Goose => 6,
            Card::Rooster => 7,
            Card::Monkey => 8,
            Card::Mantis => 9,
            Card::Horse => 10,
            Card::Ox => 11,
            Card::Crane => 12,
            Card::Boar => 13,
            Card::Eel => 14,
            Card::Cobra => 15,
        }
    }

    /// The card at place `n` among the sixteen, counted round the deck: the
    /// card after the last is the first again.
    pub fn nth(n: u64) -> (r: Card)
        ensures
            r == Card::spec_nth(n as int),
            r.spec_ordinal() == n % 16,
    {
        let k: u64 = n % 16;
        if k == 0 {
            Card::Tiger
        } else if k == 1 {
            Card::Dragon
        } else if k == 2 {
            Card::Frog
        } else if k == 3 {
            Card::Rabbit
        } else if k == 4 {
            Card::Crab
        } else if k == 5 {
            Card::Elephant
        } else if k == 6 {
            Card::Goose
        } else if k == 7 {
            Card::Rooster
        } else if k == 8 {
            Card::Monkey
        } else if k == 9 {
            Card::Mantis
        } else if k == 10 {
            Card::Horse
        } else if k == 11 {
            Card::Ox
        } else if k == 12 {
            Card::Crane
        } else if k == 13 {
            Card::Boar
        } else if k == 14 {
            Card::Eel
        } else {
            Card::Cobra
        }
    }

    /// The card's name.
    pub fn name(self) -> (r: String)
        ensures
            r@ == self.spec_name(),
    {
        match self {
            Card::Tiger => "Tiger".to_owned(),
            Card::Dragon => "Dragon".to_owned(),
            Card::Frog => "Frog".to_owned(),
            Card::Rabbit => "Rabbit".to_owned(),
            Card::Crab => "Crab".to_owned(),
            Card::Elephant => "Elephant".to_owned(),
            Card::Goose => "Goose".to_owned(),
            Card::Rooster => "Rooster".to_owned(),
            Card::Monkey => "Monkey".to_owned(),
            Card::Mantis => "Mantis".to_owned(),
            Card::Horse => "Horse".to_owned(),
            Card::Ox => "Ox".to_owned(),
            Card::Crane => "Crane".to_owned(),
            Card::Boar => "Boar".to_owned(),
            Card::Eel => "Eel".to_owned(),
            Card::Cobra => "Cobra".to_owned(),
        }
    }

    /// The player whose stamp the card bears.
    pub fn stamp(self) -> (r: Player)
        ensures
            r == self.spec_stamp(),
    {
        match self {
            Card::Tiger | Card::Rabbit | Card::Crab | Card::Goose | Card::Monkey | Card::Ox
            | Card::Crane | Card::Eel => Player::Blue,
            _ => Player::Red,
        }
    }
}

/// Every card offers between two and four steps, none of them longer than two
/// squares in either direction, and none of them the null step.
pub proof fn lemma_card_shape(card: Card)
    ensures
        2 <= card.spec_moves().len() <= 4,
        forall|k: int|
            0 <= k < card.spec_moves().len() ==> {
                let o = #[trigger] card.spec_moves()[k];
                &&& -2 <= o.d_row <= 2
                &&& -2 <= o.d_col <= 2
                &&& (o.d_row != 0 || o.d_col != 0)
            },
{
}

/// No card offers the same step twice.
pub proof fn lemma_steps_differ(card: Card)
    ensures
        forall|i: int, j: int|
            0 <= i < j < card.spec_moves().len() ==> card.spec_moves()[i] != card.spec_moves()[j],
{
}

} // verus!
