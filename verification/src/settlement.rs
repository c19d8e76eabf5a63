//! Settling a match-up: who is credited, who is debited, and with how much.

use crate::data::{bet_views, Bet, BetError, BetView, MatchUp, MatchUpView};
use crate::filters::{
    lemma_filter_keeps_order, lemma_filter_prefix, lemma_filter_push, lemma_filter_shares_out,
};
use crate::stake::{
    arithmetic_is_exact, can_add, can_divide, can_multiply, can_sum, default_is, is_pot, is_product,
    is_quotient, is_sum, lemma_pot_is_exact, pot_from, Stake,
};
use vstd::prelude::*;
use vstd::std_specs::ops::{AddSpec, DivSpec, MulSpec};

verus! {

/// Which way money moves when a match-up is settled.
#[derive(PartialEq, Eq, Structural, Clone, Copy, Debug)]
pub enum Direction {
    /// The user backed the winner and is credited.
    AddMoney,
    /// The user backed the loser and is debited.
    RemoveMoney,
}

/// One entry of a settlement: `user` is credited with `amount`, or debited
/// of it.
#[derive(Debug)]
pub struct Instruction<A> {
    pub direction: Direction,
    pub user: String,
    pub amount: A,
}

/// What an instruction is, with its string as a character sequence.
pub struct InstructionView<A> {
    pub direction: Direction,
    pub user: Seq<char>,
    pub amount: A,
}

impl<A> View for Instruction<A> {
    type V = InstructionView<A>;

    open spec fn view(&self) -> InstructionView<A> {
        InstructionView { direction: self.direction, user: self.user@, amount: self.amount }
    }
}

/// The views of `instructions`, in the same order.
pub open spec fn instruction_views<A>(instructions: Seq<Instruction<A>>) -> Seq<InstructionView<A>> {
    instructions.map_values(|instruction: Instruction<A>| instruction@)
}

/// The bets on `winner`, in the order in which they were placed.
pub open spec fn winning_bets<A>(bets: Seq<BetView<A>>, winner: Seq<char>) -> Seq<BetView<A>> {
    bets.filter(|bet: BetView<A>| bet.athlete == winner)
}

/// The bets on anyone but `winner`, in the order in which they were placed.
pub open spec fn losing_bets<A>(bets: Seq<BetView<A>>, winner: Seq<char>) -> Seq<BetView<A>> {
    bets.filter(|bet: BetView<A>| bet.athlete != winner)
}

/// The stakes of `bets`, in the same order.
pub open spec fn stakes<A>(bets: Seq<BetView<A>>) -> Seq<A> {
    bets.map_values(|bet: BetView<A>| bet.amount)
}

/// `ratio` is a pot of the stakes `losing` over a pot of the stakes
/// `winning`.
pub open spec fn is_ratio<A: Stake>(winning: Seq<A>, losing: Seq<A>, ratio: A) -> bool {
    exists|winning_pot: A, losing_pot: A|
        #![trigger is_pot(winning, winning_pot), is_pot(losing, losing_pot)]
        is_pot(winning, winning_pot) && is_pot(losing, losing_pot) && is_quotient(
            losing_pot,
            winning_pot,
            ratio,
        )
}

/// `instruction` credits the user of the winning bet `bet` with the stake
/// times `ratio`.
pub open spec fn is_credit<A: Stake>(
    bet: BetView<A>,
    ratio: A,
    instruction: InstructionView<A>,
) -> bool {
    &&& instruction.direction == Direction::AddMoney
    &&& instruction.user == bet.user
    &&& is_product(bet.amount, ratio, instruction.amount)
}

/// The debit that a losing bet costs its user: the stake, whole and as it
/// was placed.
pub open spec fn debit<A>(bet: BetView<A>) -> InstructionView<A> {
    InstructionView { direction: Direction::RemoveMoney, user: bet.user, amount: bet.amount }
}

/// `instructions` settle `bets` once `winner` has won.
///
/// There is one instruction for each bet. First come the credits, one for
/// each winning bet in the order in which the bets were placed, all scaled by
/// one and the same ratio of the losing pot to the winning pot. Then come the
/// debits, one for each losing bet in the order in which the bets were
/// placed.
pub open spec fn is_settlement<A: Stake>(
    bets: Seq<BetView<A>>,
    winner: Seq<char>,
    instructions: Seq<InstructionView<A>>,
) -> bool {
    let winning = winning_bets(bets, winner);
    let losing = losing_bets(bets, winner);
    &&& instructions.len() == winning.len() + losing.len()
    &&& exists|ratio: A| #[trigger]
        is_ratio(stakes(winning), stakes(losing), ratio) && forall|i: int|
            0 <= i < winning.len() ==> is_credit(winning[i], ratio, #[trigger] instructions[i])
    &&& instructions.skip(winning.len() as int) == losing.map_values(|bet: BetView<A>| debit(bet))
}

/// The operators of the stake type accept whatever settling `bets` in favour
/// of `winner` may ask of them: every step of summing either pot, the
/// division of the losing pot by the winning pot, and the product of each
/// winning stake and the ratio.
pub open spec fn can_settle<A: Stake>(bets: Seq<BetView<A>>, winner: Seq<char>) -> bool {
    let winning = stakes(winning_bets(bets, winner));
    let losing = stakes(losing_bets(bets, winner));
    &&& can_sum(winning)
    &&& can_sum(losing)
    &&& forall|winning_pot: A, losing_pot: A|
        #![trigger is_pot(winning, winning_pot), is_pot(losing, losing_pot)]
        is_pot(winning, winning_pot) && is_pot(losing, losing_pot) ==> can_divide(
            losing_pot,
            winning_pot,
        )
    &&& forall|ratio: A, i: int|
        #![trigger is_ratio(winning, losing, ratio), winning[i]]
        is_ratio(winning, losing, ratio) && 0 <= i < winning.len() ==> can_multiply(
            winning[i],
            ratio,
        )
}

/// The views of the bets that `bets` refers to, in the same order.
spec fn referred_views<A>(bets: Seq<&Bet<A>>) -> Seq<BetView<A>> {
    bets.map_values(|bet: &Bet<A>| bet@)
}

impl<A: Stake> MatchUp<A> {
    /// Declares `athlete` the winner and settles the bets.
    ///
    /// Where `athlete` is neither competitor, the call is refused and the
    /// match-up left as it was. Otherwise `athlete` becomes the winner,
    /// whether or not one had been declared before, and the result holds one
    /// instruction for each bet: first a credit for each bet on `athlete`,
    /// of the stake times the losing pot over the winning pot, then a debit
    /// for each other bet, of its stake. Within either group the
    /// instructions stand in the order in which the bets were placed.
    ///
    /// Either pot is summed from the default of the stake type, in the order
    /// in which the bets were placed. The ratio is taken even where nobody
    /// backed the winner; no instruction carries it then.
    pub fn settle(&mut self, athlete: &str) -> (settled: Result<Vec<Instruction<A>>, BetError>)
        requires
            old(self)@.has_athlete(athlete@) ==> can_settle(old(self)@.bets, athlete@),
        ensures
            !old(self)@.has_athlete(athlete@) ==> ({
                &&& settled == Err::<Vec<Instruction<A>>, BetError>(BetError::WrongAthlete)
                &&& *final(self) == *old(self)
            }),
            old(self)@.has_athlete(athlete@) ==> ({
                &&& settled is Ok
                &&& is_settlement(old(self)@.bets, athlete@, instruction_views(settled->Ok_0@))
                &&& settled->Ok_0@.len() == old(self).bets@.len()
                &&& final(self)@.winner == Some(athlete@)
                &&& final(self).athlete_one == old(self).athlete_one
                &&& final(self).athlete_two == old(self).athlete_two
                &&& final(self).bets == old(self).bets
            }),
            old(self)@.bets_back_competitors() ==> final(self)@.bets_back_competitors(),
    {
        if !self.athlete_exists(athlete) {
            return Err(BetError::WrongAthlete);
        }
        let name = athlete.to_owned();
        let ghost bets = bet_views(self.bets@);
        let ghost won = |bet: BetView<A>| bet.athlete == name@;
        let ghost lost = |bet: BetView<A>| bet.athlete != name@;
        let ghost winning = bets.filter(won);
        let ghost losing = bets.filter(lost);
        let mut winners: Vec<&Bet<A>> = Vec::new();
        let mut winning_pot: A = A::default();
        let mut losers: Vec<&Bet<A>> = Vec::new();
        let mut losing_pot: A = A::default();
        proof {
            reveal(Seq::filter);
        }
        for i in 0..self.bets.len()
            invariant
                bets == bet_views(self.bets@),
                won == |bet: BetView<A>| bet.athlete == name@,
                lost == |bet: BetView<A>| bet.athlete != name@,
                winning == bets.filter(won),
                losing == bets.filter(lost),
                can_sum(stakes(winning)),
                can_sum(stakes(losing)),
                referred_views(winners@) == bets.take(i as int).filter(won),
                referred_views(losers@) == bets.take(i as int).filter(lost),
                is_pot(stakes(bets.take(i as int).filter(won)), winning_pot),
                is_pot(stakes(bets.take(i as int).filter(lost)), losing_pot),
        {
            let bet = &self.bets[i];
            let ghost winning_before = bets.take(i as int).filter(won);
            let ghost losing_before = bets.take(i as int).filter(lost);
            proof {
                assert(bets.take(i + 1) =~= bets.take(i as int).push(bet@));
                lemma_filter_push(bets.take(i as int), bet@, won);
                lemma_filter_push(bets.take(i as int), bet@, lost);
                lemma_filter_prefix(bets, won, i as int);
                lemma_filter_prefix(bets, lost, i as int);
                lemma_filter_prefix(bets, won, i + 1);
                lemma_filter_prefix(bets, lost, i + 1);
            }
            if bet.athlete == name {
                proof {
                    let k = winning_before.len() as int;
                    assert(winning.take(k + 1)[k] == bet@);
                    assert(stakes(winning).take(k) =~= stakes(winning_before));
                }
                let ghost pot_before = winning_pot;
                winning_pot = winning_pot + bet.amount;
                winners.push(bet);
                proof {
                    let after = winning_before.push(bet@);
                    assert(stakes(after).drop_last() =~= stakes(winning_before));
                    assert(is_sum(pot_before, stakes(after).last(), winning_pot));
                }
            } else {
                proof {
                    let k = losing_before.len() as int;
                    assert(losing.take(k + 1)[k] == bet@);
                    assert(stakes(losing).take(k) =~= stakes(losing_before));
                }
                let ghost pot_before = losing_pot;
                losing_pot = losing_pot + bet.amount;
                losers.push(bet);
                proof {
                    let after = losing_before.push(bet@);
                    assert(stakes(after).drop_last() =~= stakes(losing_before));
                    assert(is_sum(pot_before, stakes(after).last(), losing_pot));
                }
            }
        }
        proof {
            assert(bets.take(self.bets@.len() as int) =~= bets);
        }
        let winning_ratio: A = losing_pot / winning_pot;
        let mut output: Vec<Instruction<A>> = Vec::new();
        for k in 0..winners.len()
            invariant
                referred_views(winners@) == winning,
                can_settle(bets, name@),
                winning == winning_bets(bets, name@),
                losing == losing_bets(bets, name@),
                is_ratio(stakes(winning), stakes(losing), winning_ratio),
                output@.len() == k,
                forall|j: int|
                    0 <= j < k ==> is_credit(
                        winning[j],
                        winning_ratio,
                        #[trigger] instruction_views(output@)[j],
                    ),
        {
            let bet = winners[k];
            proof {
                assert(stakes(winning)[k as int] == bet.amount);
            }
            let winnings: A = bet.amount * winning_ratio;
            let ghost output_before = instruction_views(output@);
            output.push(
                Instruction { direction: Direction::AddMoney, user: bet.user.clone(), amount: winnings },
            );
            proof {
                assert(instruction_views(output@) =~= output_before.push(output@.last()@));
            }
        }
        let ghost credits = instruction_views(output@);
        let ghost to_debit = |bet: BetView<A>| debit(bet);
        for k in 0..losers.len()
            invariant
                referred_views(losers@) == losing,
                referred_views(winners@) == winning,
                output@.len() == winning.len() + k,
                instruction_views(output@).take(winning.len() as int) == credits,
                instruction_views(output@).skip(winning.len() as int) == losing.take(
                    k as int,
                ).map_values(to_debit),
                to_debit == |bet: BetView<A>| debit(bet),
        {
            let bet = losers[k];
            let ghost output_before = instruction_views(output@);
            output.push(
                Instruction {
                    direction: Direction::RemoveMoney,
                    user: bet.user.clone(),
                    amount: bet.amount,
                },
            );
            proof {
                assert(losing.take(k as int).map_values(to_debit).push(debit(bet@)) =~= losing.take(
                    k + 1,
                ).map_values(to_debit));
            }
        }
        proof {
            assert(losing.take(losing.len() as int) =~= losing);
            let instructions = instruction_views(output@);
            assert forall|i: int| 0 <= i < winning.len() implies is_credit(
                winning[i],
                winning_ratio,
                #[trigger] instructions[i],
            ) by {
                assert(instructions[i] == credits[i]);
            }
            lemma_settlement_covers_every_bet(bets, name@);
        }
        self.winner = Some(name);
        Ok(output)
    }
}

/// Every bet is either a winning or a losing bet, and none is both: the two
/// groups together are as many as the bets.
pub proof fn lemma_settlement_covers_every_bet<A>(bets: Seq<BetView<A>>, winner: Seq<char>)
    ensures
        winning_bets(bets, winner).len() + losing_bets(bets, winner).len() == bets.len(),
{
    lemma_filter_shares_out(
        bets,
        |bet: BetView<A>| bet.athlete == winner,
        |bet: BetView<A>| bet.athlete != winner,
    );
}

/// The winning bets are bets on the winner, and they keep the order in which
/// they were placed: of two winning bets, the earlier in the list was placed
/// earlier.
pub proof fn lemma_winning_bets_in_order<A>(bets: Seq<BetView<A>>, winner: Seq<char>, i: int, j: int)
    requires
        0 <= i < j < winning_bets(bets, winner).len(),
    ensures
        winning_bets(bets, winner)[i].athlete == winner,
        winning_bets(bets, winner)[j].athlete == winner,
        exists|p: int, q: int|
            0 <= p < q < bets.len() && bets[p] == winning_bets(bets, winner)[i] && bets[q]
                == winning_bets(bets, winner)[j],
{
    let won = |bet: BetView<A>| bet.athlete == winner;
    bets.lemma_filter_pred(won, i);
    bets.lemma_filter_pred(won, j);
    lemma_filter_keeps_order(bets, won, i, j);
}

/// The losing bets are bets on anyone but the winner, and they keep the order
/// in which they were placed: of two losing bets, the earlier in the list was
/// placed earlier.
pub proof fn lemma_losing_bets_in_order<A>(bets: Seq<BetView<A>>, winner: Seq<char>, i: int, j: int)
    requires
        0 <= i < j < losing_bets(bets, winner).len(),
    ensures
        losing_bets(bets, winner)[i].athlete != winner,
        losing_bets(bets, winner)[j].athlete != winner,
        exists|p: int, q: int|
            0 <= p < q < bets.len() && bets[p] == losing_bets(bets, winner)[i] && bets[q]
                == losing_bets(bets, winner)[j],
{
    let lost = |bet: BetView<A>| bet.athlete != winner;
    bets.lemma_filter_pred(lost, i);
    bets.lemma_filter_pred(lost, j);
    lemma_filter_keeps_order(bets, lost, i, j);
}

/// Where every bet backs one of the two competitors, whoever loses to one of
/// them has backed a competitor too, and not the winner: with two different
/// names, the other one.
pub proof fn lemma_losers_backed_the_other<A>(match_up: MatchUpView<A>, winner: Seq<char>, j: int)
    requires
        match_up.bets_back_competitors(),
        0 <= j < losing_bets(match_up.bets, winner).len(),
    ensures
        match_up.has_athlete(losing_bets(match_up.bets, winner)[j].athlete),
        losing_bets(match_up.bets, winner)[j].athlete != winner,
{
    let lost = |bet: BetView<A>| bet.athlete != winner;
    let loser = match_up.bets.filter(lost)[j];
    match_up.bets.lemma_filter_pred(lost, j);
    assert(match_up.bets.filter(lost).contains(loser));
    match_up.bets.lemma_filter_contains_rev(lost, loser);
    let p = choose|p: int| 0 <= p < match_up.bets.len() && match_up.bets[p] == loser;
    assert(match_up.has_athlete(match_up.bets[p].athlete));
}

/// A settlement credits the user of each winning bet: the instruction at the
/// place of the winning bet is a credit and names its user.
pub proof fn lemma_credit_names_the_winner<A: Stake>(
    bets: Seq<BetView<A>>,
    winner: Seq<char>,
    instructions: Seq<InstructionView<A>>,
    i: int,
)
    requires
        is_settlement(bets, winner, instructions),
        0 <= i < winning_bets(bets, winner).len(),
    ensures
        instructions[i].direction == Direction::AddMoney,
        instructions[i].user == winning_bets(bets, winner)[i].user,
{
    let winning = winning_bets(bets, winner);
    let losing = losing_bets(bets, winner);
    let ratio = choose|ratio: A| #[trigger]
        is_ratio(stakes(winning), stakes(losing), ratio) && forall|i: int|
            0 <= i < winning.len() ==> is_credit(winning[i], ratio, #[trigger] instructions[i]);
    assert(is_credit(winning[i], ratio, instructions[i]));
}

/// Where the arithmetic of the stake type is exact and its default is `zero`,
/// a settlement credits each winning bet with its stake times the quotient of
/// the losing pot and the winning pot: the instruction at the place of the
/// winning bet carries that product.
pub proof fn lemma_credit_is_exact<A: Stake>(
    bets: Seq<BetView<A>>,
    winner: Seq<char>,
    instructions: Seq<InstructionView<A>>,
    zero: A,
    i: int,
)
    requires
        arithmetic_is_exact::<A>(),
        default_is(zero),
        is_settlement(bets, winner, instructions),
        0 <= i < winning_bets(bets, winner).len(),
    ensures
        instructions[i].amount == winning_bets(bets, winner)[i].amount.mul_spec(
            pot_from(zero, stakes(losing_bets(bets, winner))).div_spec(
                pot_from(zero, stakes(winning_bets(bets, winner))),
            ),
        ),
{
    let winning = winning_bets(bets, winner);
    let losing = losing_bets(bets, winner);
    let ratio = choose|ratio: A| #[trigger]
        is_ratio(stakes(winning), stakes(losing), ratio) && forall|i: int|
            0 <= i < winning.len() ==> is_credit(winning[i], ratio, #[trigger] instructions[i]);
    let (winning_pot, losing_pot) = choose|winning_pot: A, losing_pot: A|
        #![trigger is_pot(stakes(winning), winning_pot), is_pot(stakes(losing), losing_pot)]
        is_pot(stakes(winning), winning_pot) && is_pot(stakes(losing), losing_pot) && is_quotient(
            losing_pot,
            winning_pot,
            ratio,
        );
    lemma_pot_is_exact(zero, stakes(winning), winning_pot);
    lemma_pot_is_exact(zero, stakes(losing), losing_pot);
}

/// A settlement debits each losing bet with its stake, whole and as it was
/// placed: the instruction at the place of the losing bet, counted from the
/// first debit, names its user and carries its stake.
pub proof fn lemma_debit_is_the_stake<A: Stake>(
    bets: Seq<BetView<A>>,
    winner: Seq<char>,
    instructions: Seq<InstructionView<A>>,
    j: int,
)
    requires
        is_settlement(bets, winner, instructions),
        0 <= j < losing_bets(bets, winner).len(),
    ensures
        instructions[winning_bets(bets, winner).len() + j] == debit(losing_bets(bets, winner)[j]),
{
    let winning = winning_bets(bets, winner);
    let losing = losing_bets(bets, winner);
    assert(instructions.skip(winning.len() as int)[j] == losing.map_values(
        |bet: BetView<A>| debit(bet),
    )[j]);
}

/// A stake type whose operators accept all operands can settle any bets.
pub proof fn lemma_can_settle_where_total<A: Stake>(bets: Seq<BetView<A>>, winner: Seq<char>)
    requires
        forall|left: A, right: A| #[trigger] can_add(left, right),
        forall|dividend: A, divisor: A| #[trigger] can_divide(dividend, divisor),
        forall|left: A, right: A| #[trigger] can_multiply(left, right),
    ensures
        can_settle(bets, winner),
{
}

/// Where the arithmetic of the stake type is exact and its default is `zero`,
/// it can settle bets whose sums, quotient and products it accepts step by
/// step: each stake added to the sum of those before it on its side, the
/// losing pot divided by the winning pot, and each winning stake multiplied
/// by that quotient.
pub proof fn lemma_can_settle_where_exact<A: Stake>(bets: Seq<BetView<A>>, winner: Seq<char>, zero: A)
    requires
        arithmetic_is_exact::<A>(),
        default_is(zero),
        ({
            let winning = stakes(winning_bets(bets, winner));
            let losing = stakes(losing_bets(bets, winner));
            &&& forall|i: int|
                0 <= i < winning.len() ==> pot_from(zero, #[trigger] winning.take(i)).add_req(
                    winning[i],
                )
            &&& forall|i: int|
                0 <= i < losing.len() ==> pot_from(zero, #[trigger] losing.take(i)).add_req(
                    losing[i],
                )
            &&& pot_from(zero, losing).div_req(pot_from(zero, winning))
            &&& forall|i: int|
                0 <= i < winning.len() ==> (#[trigger] winning[i]).mul_req(
                    pot_from(zero, losing).div_spec(pot_from(zero, winning)),
                )
        }),
    ensures
        can_settle(bets, winner),
{
    let winning = stakes(winning_bets(bets, winner));
    let losing = stakes(losing_bets(bets, winner));
    assert forall|i: int, before: A|
        0 <= i < winning.len() && #[trigger] is_pot(winning.take(i), before) implies can_add(
        before,
        winning[i],
    ) by {
        lemma_pot_is_exact(zero, winning.take(i), before);
    }
    assert forall|i: int, before: A|
        0 <= i < losing.len() && #[trigger] is_pot(losing.take(i), before) implies can_add(
        before,
        losing[i],
    ) by {
        lemma_pot_is_exact(zero, losing.take(i), before);
    }
    assert forall|winning_pot: A, losing_pot: A|
        #![trigger is_pot(winning, winning_pot), is_pot(losing, losing_pot)]
        is_pot(winning, winning_pot) && is_pot(losing, losing_pot) implies can_divide(
        losing_pot,
        winning_pot,
    ) by {
        lemma_pot_is_exact(zero, winning, winning_pot);
        lemma_pot_is_exact(zero, losing, losing_pot);
    }
    assert forall|ratio: A, i: int|
        #![trigger is_ratio(winning, losing, ratio), winning[i]]
        is_ratio(winning, losing, ratio) && 0 <= i < winning.len() implies can_multiply(
        winning[i],
        ratio,
    ) by {
        let (winning_pot, losing_pot) = choose|winning_pot: A, losing_pot: A|
            #![trigger is_pot(winning, winning_pot), is_pot(losing, losing_pot)]
            is_pot(winning, winning_pot) && is_pot(losing, losing_pot) && is_quotient(
                losing_pot,
                winning_pot,
                ratio,
            );
        lemma_pot_is_exact(zero, winning, winning_pot);
        lemma_pot_is_exact(zero, losing, losing_pot);
    }
}

} // verus!
