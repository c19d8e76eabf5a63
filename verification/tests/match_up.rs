use wager_ledger::data::{Bet, BetError, MatchUp};
use wager_ledger::settlement::{Direction, Instruction};

fn create_match_up() -> MatchUp<f32> {
    MatchUp::new("Brzenk".to_string(), "Cyplenkov".to_string())
}

fn summary(instructions: &[Instruction<f32>]) -> Vec<(Direction, String, f32)> {
    instructions
        .iter()
        .map(|instruction| (instruction.direction, instruction.user.clone(), instruction.amount))
        .collect()
}

fn placed(match_up: &MatchUp<u32>) -> Vec<(String, u32, String)> {
    match_up.bets.iter().map(|bet| (bet.user.clone(), bet.amount, bet.athlete.clone())).collect()
}

#[test]
fn test_create_match() {
    let match_up = create_match_up();

    assert_eq!("Brzenk".to_string(), match_up.athlete_one);
    assert_eq!("Cyplenkov".to_string(), match_up.athlete_two);
    assert!(match_up.bets.len() == 0);
    assert_eq!(None, match_up.winner);
}

#[test]
fn test_create_bet() {
    let mut match_up = create_match_up();

    let user = "Toop".to_string();
    let athlete = "Brzenk".to_string();
    let amount = 100.0;
    let result = match_up.add_bet(athlete.clone(), user.clone(), amount);

    assert!(result.is_ok());
    assert!(match_up.bets.len() == 1);
    assert!(match_up.bets[0].user == user);
    assert!(match_up.bets[0].athlete == athlete);
    assert!(match_up.bets[0].amount == amount);
}

#[test]
fn test_athlete_name_wrong_error() {
    let mut match_up = create_match_up();

    let result = match_up.add_bet("Pushkar".to_string(), "Toop".to_string(), 100.0);
    assert!(result == Err(BetError::WrongAthlete));
}

#[test]
fn test_payout_match_with_wrong_athlete() {
    let mut match_up = create_match_up();

    match_up.add_bet("Brzenk".to_string(), "Toop".to_string(), 100.0).expect("Foo");
    match_up.add_bet("Cyplenkov".to_string(), "Poot".to_string(), 150.0).expect("Foo");

    let result = match_up.payout("Pushkar");

    assert!(!result.is_ok());
}

#[test]
fn test_payout() {
    let mut match_up = create_match_up();

    match_up.add_bet("Brzenk".to_string(), "Toop".to_string(), 100.0).expect("Foo");
    match_up.add_bet("Brzenk".to_string(), "Toop".to_string(), 200.0).expect("Foo");
    match_up.add_bet("Cyplenkov".to_string(), "Poot".to_string(), 220.0).expect("Foo");
    match_up.add_bet("Cyplenkov".to_string(), "Foo".to_string(), 130.5).expect("Foo");

    let result = match_up.payout("Brzenk").expect("Fail");

    assert_eq!(
        Vec::from([
            "/add-money Toop 116.83333",
            "/add-money Toop 233.66666",
            "/remove-money Poot 220",
            "/remove-money Foo 130.5"
        ]),
        result
    );
    assert_eq!(Some("Brzenk".to_string()), match_up.winner);
}

#[test]
fn new_match_up_accepts_equal_names() {
    let match_up: MatchUp<u32> = MatchUp::new("Same".to_string(), "Same".to_string());

    assert_eq!("Same", match_up.athlete_one);
    assert_eq!("Same", match_up.athlete_two);
    assert!(match_up.bets.is_empty());
    assert_eq!(None, match_up.winner);
}

#[test]
fn athlete_exists_knows_both_competitors_only() {
    let match_up = create_match_up();

    assert!(match_up.athlete_exists("Brzenk"));
    assert!(match_up.athlete_exists("Cyplenkov"));
    assert!(!match_up.athlete_exists("Pushkar"));
    assert!(!match_up.athlete_exists("brzenk"));
    assert!(!match_up.athlete_exists(""));
}

#[test]
fn add_bet_on_second_athlete_is_accepted() {
    let mut match_up: MatchUp<u32> = MatchUp::new("One".to_string(), "Two".to_string());

    assert_eq!(Ok(()), match_up.add_bet("Two".to_string(), "Ann".to_string(), 7));
    assert_eq!(vec![("Ann".to_string(), 7, "Two".to_string())], placed(&match_up));
}

#[test]
fn add_bet_appends_behind_earlier_bets() {
    let mut match_up: MatchUp<u32> = MatchUp::new("One".to_string(), "Two".to_string());

    match_up.add_bet("One".to_string(), "Ann".to_string(), 1).unwrap();
    match_up.add_bet("Two".to_string(), "Bob".to_string(), 2).unwrap();
    match_up.add_bet("One".to_string(), "Cid".to_string(), 3).unwrap();

    assert_eq!(
        vec![
            ("Ann".to_string(), 1, "One".to_string()),
            ("Bob".to_string(), 2, "Two".to_string()),
            ("Cid".to_string(), 3, "One".to_string()),
        ],
        placed(&match_up)
    );
}

#[test]
fn add_bet_examines_neither_user_nor_amount() {
    let mut match_up: MatchUp<f32> = MatchUp::new("One".to_string(), "Two".to_string());

    assert_eq!(Ok(()), match_up.add_bet("One".to_string(), "".to_string(), -5.0));
    assert_eq!(Ok(()), match_up.add_bet("One".to_string(), "Ann".to_string(), 0.0));
    assert_eq!(2, match_up.bets.len());
    assert_eq!("", match_up.bets[0].user);
    assert_eq!(-5.0, match_up.bets[0].amount);
}

#[test]
fn refused_bet_leaves_match_up_unchanged() {
    let mut match_up: MatchUp<u32> = MatchUp::new("One".to_string(), "Two".to_string());
    match_up.add_bet("One".to_string(), "Ann".to_string(), 1).unwrap();

    let result = match_up.add_bet("Three".to_string(), "Bob".to_string(), 2);

    assert_eq!(Err(BetError::WrongAthlete), result);
    assert_eq!(vec![("Ann".to_string(), 1, "One".to_string())], placed(&match_up));
    assert_eq!("One", match_up.athlete_one);
    assert_eq!("Two", match_up.athlete_two);
    assert_eq!(None, match_up.winner);
}

#[test]
fn refused_payout_declares_no_winner() {
    let mut match_up: MatchUp<u32> = MatchUp::new("One".to_string(), "Two".to_string());
    match_up.add_bet("One".to_string(), "Ann".to_string(), 1).unwrap();

    let result = match_up.payout("Three");

    assert_eq!(Err(BetError::WrongAthlete), result);
    assert_eq!(None, match_up.winner);
    assert_eq!(vec![("Ann".to_string(), 1, "One".to_string())], placed(&match_up));
}

#[test]
fn refused_settle_declares_no_winner() {
    let mut match_up: MatchUp<u32> = MatchUp::new("One".to_string(), "Two".to_string());
    match_up.add_bet("One".to_string(), "Ann".to_string(), 1).unwrap();

    let result = match_up.settle("Three");

    assert_eq!(Some(BetError::WrongAthlete), result.err());
    assert_eq!(None, match_up.winner);
    assert_eq!(vec![("Ann".to_string(), 1, "One".to_string())], placed(&match_up));
}

#[test]
fn refused_payout_keeps_earlier_winner() {
    let mut match_up: MatchUp<f32> = MatchUp::new("One".to_string(), "Two".to_string());
    match_up.payout("Two").unwrap();

    assert!(match_up.payout("Nobody").is_err());
    assert_eq!(Some("Two".to_string()), match_up.winner);
}

#[test]
fn settle_puts_credits_before_debits_in_placing_order() {
    let mut match_up: MatchUp<f32> = MatchUp::new("One".to_string(), "Two".to_string());
    match_up.add_bet("Two".to_string(), "Ann".to_string(), 10.0).unwrap();
    match_up.add_bet("One".to_string(), "Bob".to_string(), 20.0).unwrap();
    match_up.add_bet("Two".to_string(), "Cid".to_string(), 30.0).unwrap();
    match_up.add_bet("One".to_string(), "Dan".to_string(), 40.0).unwrap();
    match_up.add_bet("Two".to_string(), "Ann".to_string(), 50.0).unwrap();

    let settled = match_up.settle("One").unwrap();

    assert_eq!(
        vec![
            (Direction::AddMoney, "Bob".to_string(), 30.0),
            (Direction::AddMoney, "Dan".to_string(), 60.0),
            (Direction::RemoveMoney, "Ann".to_string(), 10.0),
            (Direction::RemoveMoney, "Cid".to_string(), 30.0),
            (Direction::RemoveMoney, "Ann".to_string(), 50.0),
        ],
        summary(&settled)
    );
    assert_eq!(Some("One".to_string()), match_up.winner);
    assert_eq!(5, match_up.bets.len());
}

#[test]
fn settle_for_second_athlete_swaps_the_sides() {
    let mut match_up: MatchUp<f32> = MatchUp::new("One".to_string(), "Two".to_string());
    match_up.add_bet("Two".to_string(), "Ann".to_string(), 10.0).unwrap();
    match_up.add_bet("One".to_string(), "Bob".to_string(), 25.0).unwrap();

    let settled = match_up.settle("Two").unwrap();

    assert_eq!(
        vec![
            (Direction::AddMoney, "Ann".to_string(), 25.0),
            (Direction::RemoveMoney, "Bob".to_string(), 25.0),
        ],
        summary(&settled)
    );
    assert_eq!(Some("Two".to_string()), match_up.winner);
}

#[test]
fn settle_scales_by_the_rounded_ratio() {
    let mut match_up = create_match_up();
    match_up.add_bet("Brzenk".to_string(), "Toop".to_string(), 100.0).unwrap();
    match_up.add_bet("Brzenk".to_string(), "Toop".to_string(), 200.0).unwrap();
    match_up.add_bet("Cyplenkov".to_string(), "Poot".to_string(), 220.0).unwrap();
    match_up.add_bet("Cyplenkov".to_string(), "Foo".to_string(), 130.5).unwrap();

    let settled = match_up.settle("Brzenk").unwrap();

    let ratio: f32 = 350.5 / 300.0;
    assert_eq!(
        vec![
            (Direction::AddMoney, "Toop".to_string(), 100.0 * ratio),
            (Direction::AddMoney, "Toop".to_string(), 200.0 * ratio),
            (Direction::RemoveMoney, "Poot".to_string(), 220.0),
            (Direction::RemoveMoney, "Foo".to_string(), 130.5),
        ],
        summary(&settled)
    );
}

#[test]
fn settle_sums_each_pot_in_placing_order() {
    let mut match_up = create_match_up();
    match_up.add_bet("Cyplenkov".to_string(), "Ann".to_string(), 16777216.0).unwrap();
    match_up.add_bet("Cyplenkov".to_string(), "Bob".to_string(), 1.0).unwrap();
    match_up.add_bet("Cyplenkov".to_string(), "Cid".to_string(), 1.0).unwrap();
    match_up.add_bet("Brzenk".to_string(), "Dan".to_string(), 1.0).unwrap();

    let settled = match_up.settle("Brzenk").unwrap();

    assert_eq!((Direction::AddMoney, "Dan".to_string(), 16777216.0), summary(&settled)[0]);
}

#[test]
fn payout_without_bets_is_empty() {
    let mut match_up: MatchUp<f32> = MatchUp::new("One".to_string(), "Two".to_string());

    let lines = match_up.payout("One").unwrap();

    assert!(lines.is_empty());
    assert_eq!(Some("One".to_string()), match_up.winner);
}

#[test]
fn payout_may_declare_another_winner_later() {
    let mut match_up: MatchUp<f32> = MatchUp::new("One".to_string(), "Two".to_string());
    match_up.add_bet("One".to_string(), "Ann".to_string(), 10.0).unwrap();

    let first = match_up.payout("One").unwrap();
    let second = match_up.payout("Two").unwrap();

    assert_eq!(Vec::from(["/add-money Ann 0"]), first);
    assert_eq!(Vec::from(["/remove-money Ann 10"]), second);
    assert_eq!(Some("Two".to_string()), match_up.winner);
}

#[test]
fn bets_may_be_placed_after_payout() {
    let mut match_up: MatchUp<f32> = MatchUp::new("One".to_string(), "Two".to_string());
    match_up.payout("One").unwrap();

    assert_eq!(Ok(()), match_up.add_bet("Two".to_string(), "Ann".to_string(), 10.0));
    assert_eq!(1, match_up.bets.len());
    assert_eq!(Some("One".to_string()), match_up.winner);
}

#[test]
fn payout_without_losers_credits_nothing() {
    let mut match_up = create_match_up();
    match_up.add_bet("Brzenk".to_string(), "Toop".to_string(), 100.0).unwrap();
    match_up.add_bet("Brzenk".to_string(), "Poot".to_string(), 50.0).unwrap();

    let result = match_up.payout("Brzenk").unwrap();

    assert_eq!(Vec::from(["/add-money Toop 0", "/add-money Poot 0"]), result);
}

#[test]
fn payout_without_winners_debits_every_stake() {
    let mut match_up = create_match_up();
    match_up.add_bet("Brzenk".to_string(), "Toop".to_string(), 100.0).unwrap();
    match_up.add_bet("Brzenk".to_string(), "Poot".to_string(), 50.25).unwrap();

    let result = match_up.payout("Cyplenkov").unwrap();

    assert_eq!(Vec::from(["/remove-money Toop 100", "/remove-money Poot 50.25"]), result);
}

#[test]
fn payout_on_an_empty_winning_pot_is_not_a_number() {
    let mut match_up = create_match_up();
    match_up.add_bet("Brzenk".to_string(), "Toop".to_string(), 0.0).unwrap();
    match_up.add_bet("Cyplenkov".to_string(), "Poot".to_string(), 30.0).unwrap();

    let result = match_up.payout("Brzenk").unwrap();

    assert_eq!(Vec::from(["/add-money Toop NaN", "/remove-money Poot 30"]), result);
}

#[test]
fn payout_scales_each_winner_by_losing_pot_over_winning_pot() {
    let mut match_up = create_match_up();
    match_up.add_bet("Brzenk".to_string(), "Toop".to_string(), 10.0).unwrap();
    match_up.add_bet("Cyplenkov".to_string(), "Poot".to_string(), 30.0).unwrap();
    match_up.add_bet("Brzenk".to_string(), "Foo".to_string(), 30.0).unwrap();
    match_up.add_bet("Cyplenkov".to_string(), "Bar".to_string(), 50.0).unwrap();

    let result = match_up.payout("Brzenk").unwrap();

    assert_eq!(
        Vec::from([
            "/add-money Toop 20",
            "/add-money Foo 60",
            "/remove-money Poot 30",
            "/remove-money Bar 50"
        ]),
        result
    );
}

#[test]
fn payout_in_whole_numbers_divides_before_it_multiplies() {
    let mut match_up: MatchUp<u32> = MatchUp::new("One".to_string(), "Two".to_string());
    match_up.add_bet("One".to_string(), "Ann".to_string(), 20).unwrap();
    match_up.add_bet("Two".to_string(), "Bob".to_string(), 50).unwrap();

    let result = match_up.payout("One").unwrap();

    assert_eq!(Vec::from(["/add-money Ann 40", "/remove-money Bob 50"]), result);
}

#[test]
fn render_writes_command_user_and_amount() {
    let credit: Instruction<f32> =
        Instruction { direction: Direction::AddMoney, user: "Toop".to_string(), amount: 116.83333 };
    let debit: Instruction<f32> =
        Instruction { direction: Direction::RemoveMoney, user: "Poot".to_string(), amount: 220.0 };

    assert_eq!("/add-money Toop 116.83333", credit.render());
    assert_eq!("/remove-money Poot 220", debit.render());
}

#[test]
fn render_keeps_spaces_inside_user() {
    let debit: Instruction<u32> =
        Instruction { direction: Direction::RemoveMoney, user: "Van Damme".to_string(), amount: 4 };

    assert_eq!("/remove-money Van Damme 4", debit.render());
}

#[test]
fn render_of_empty_user_keeps_both_spaces() {
    let credit: Instruction<u32> =
        Instruction { direction: Direction::AddMoney, user: String::new(), amount: 7 };

    assert_eq!("/add-money  7", credit.render());
}

#[test]
fn athlete_numbered_picks_first_and_second() {
    let match_up = create_match_up();

    assert_eq!(Some(&"Brzenk".to_string()), match_up.athlete_numbered(1));
    assert_eq!(Some(&"Cyplenkov".to_string()), match_up.athlete_numbered(2));
    assert_eq!(None, match_up.athlete_numbered(0));
    assert_eq!(None, match_up.athlete_numbered(3));
    assert_eq!(None, match_up.athlete_numbered(usize::MAX));
}

#[test]
fn delete_bet_removes_one_and_closes_the_gap() {
    let mut match_up: MatchUp<u32> = MatchUp::new("One".to_string(), "Two".to_string());
    match_up.add_bet("One".to_string(), "Ann".to_string(), 1).unwrap();
    match_up.add_bet("Two".to_string(), "Bob".to_string(), 2).unwrap();
    match_up.add_bet("One".to_string(), "Cid".to_string(), 3).unwrap();

    let withdrawn: Option<Bet<u32>> = match_up.delete_bet(1);

    let withdrawn = withdrawn.expect("a bet stood at index 1");
    assert_eq!(("Bob", 2, "Two"), (withdrawn.user.as_str(), withdrawn.amount, withdrawn.athlete.as_str()));
    assert_eq!(
        vec![("Ann".to_string(), 1, "One".to_string()), ("Cid".to_string(), 3, "One".to_string())],
        placed(&match_up)
    );
}

#[test]
fn delete_bet_out_of_range_removes_nothing() {
    let mut match_up: MatchUp<u32> = MatchUp::new("One".to_string(), "Two".to_string());
    match_up.add_bet("One".to_string(), "Ann".to_string(), 1).unwrap();

    assert!(match_up.delete_bet(1).is_none());
    assert!(match_up.delete_bet(usize::MAX).is_none());
    assert_eq!(vec![("Ann".to_string(), 1, "One".to_string())], placed(&match_up));
}
