//! A settlement written out, one line for each instruction.

use crate::data::{BetError, BetView, MatchUp};
use crate::settlement::{
    can_settle, instruction_views, is_settlement, Direction, Instruction, InstructionView,
};
use crate::stake::Stake;
use core::fmt::Display;
use vstd::prelude::*;
use vstd::string::to_string_from_display_ensures;

verus! {

/// The word that opens the line of an instruction.
pub open spec fn command(direction: Direction) -> Seq<char> {
    match direction {
        Direction::AddMoney => "/add-money"@,
        Direction::RemoveMoney => "/remove-money"@,
    }
}

/// The line of an instruction: its command, the user and the amount, with one
/// space between them.
pub open spec fn rendered(direction: Direction, user: Seq<char>, amount: Seq<char>) -> Seq<char> {
    command(direction) + " "@ + user + " "@ + amount
}

/// `line` is a line of `instruction`, with the amount written as the stake
/// type displays it.
pub open spec fn is_line<A: Display>(instruction: InstructionView<A>, line: Seq<char>) -> bool {
    exists|amount: String| #[trigger]
        to_string_from_display_ensures::<A>(&instruction.amount, amount) && line == rendered(
            instruction.direction,
            instruction.user,
            amount@,
        )
}

/// The character sequences of `lines`, in the same order.
pub open spec fn texts(lines: Seq<String>) -> Seq<Seq<char>> {
    lines.map_values(|line: String| line@)
}

/// `lines` are the lines of `instructions`, one for each and in the same
/// order.
pub open spec fn are_lines<A: Display>(
    instructions: Seq<InstructionView<A>>,
    lines: Seq<Seq<char>>,
) -> bool {
    &&& lines.len() == instructions.len()
    &&& forall|i: int| 0 <= i < lines.len() ==> is_line(instructions[i], #[trigger] lines[i])
}

/// `lines` are the lines of a settlement of `bets` once `winner` has won.
pub open spec fn is_payout<A: Stake + Display>(
    bets: Seq<BetView<A>>,
    winner: Seq<char>,
    lines: Seq<Seq<char>>,
) -> bool {
    exists|instructions: Seq<InstructionView<A>>| #[trigger]
        is_settlement(bets, winner, instructions) && are_lines(instructions, lines)
}

impl<A: Display> Instruction<A> {
    /// The line that tells a bank to carry out this instruction.
    pub fn render(&self) -> (line: String)
        ensures
            is_line(self@, line@),
    {
        let amount = self.amount.to_string();
        let mut line = match self.direction {
            Direction::AddMoney => String::from_str("/add-money"),
            Direction::RemoveMoney => String::from_str("/remove-money"),
        };
        line.append(" ");
        line.append(self.user.as_str());
        line.append(" ");
        line.append(amount.as_str());
        proof {
            assert(to_string_from_display_ensures::<A>(&self@.amount, amount));
        }
        line
    }
}

impl<A: Stake + Display> MatchUp<A> {
    /// Declares `athlete` the winner and writes out the settlement of the
    /// bets: one line for each instruction that `settle` gives, in the same
    /// order.
    ///
    /// Where `athlete` is neither competitor, the call is refused and the
    /// match-up left as it was.
    pub fn payout(&mut self, athlete: &str) -> (lines: Result<Vec<String>, BetError>)
        requires
            old(self)@.has_athlete(athlete@) ==> can_settle(old(self)@.bets, athlete@),
        ensures
            !old(self)@.has_athlete(athlete@) ==> ({
                &&& lines == Err::<Vec<String>, BetError>(BetError::WrongAthlete)
                &&& *final(self) == *old(self)
            }),
            old(self)@.has_athlete(athlete@) ==> ({
                &&& lines is Ok
                &&& is_payout(old(self)@.bets, athlete@, texts(lines->Ok_0@))
                &&& lines->Ok_0@.len() == old(self).bets@.len()
                &&& final(self)@.winner == Some(athlete@)
                &&& final(self).athlete_one == old(self).athlete_one
                &&& final(self).athlete_two == old(self).athlete_two
                &&& final(self).bets == old(self).bets
            }),
            old(self)@.bets_back_competitors() ==> final(self)@.bets_back_competitors(),
    {
        let instructions = match self.settle(athlete) {
            Ok(instructions) => instructions,
            Err(error) => {
                return Err(error);
            },
        };
        let mut output_text: Vec<String> = Vec::new();
        for i in 0..instructions.len()
            invariant
                output_text@.len() == i,
                forall|j: int|
                    0 <= j < i ==> is_line(
                        instruction_views(instructions@)[j],
                        #[trigger] texts(output_text@)[j],
                    ),
        {
            let line = instructions[i].render();
            let ghost texts_before = texts(output_text@);
            output_text.push(line);
            proof {
                assert(texts(output_text@) =~= texts_before.push(line@));
            }
        }
        Ok(output_text)
    }
}

} // verus!
