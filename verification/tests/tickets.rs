use hapr::address::Address;
use hapr::error::{CustomError, Failure};
use hapr::policy::Policy;
use hapr::ticket_layout::{ledger_size_of, LEDGER_HEADER_SIZE, TICKET_SIZE};
use hapr::tickets::{batch_value_checked, Ticket, TicketAccount};

const YEAR: i64 = 31_536_000;

fn owner() -> Address {
    Address { bytes: [3; 32] }
}

fn ticket_policy() -> Policy {
    Policy::standard(
        Address { bytes: spl_token::id().to_bytes() },
        Address { bytes: spl_associated_token_account::id().to_bytes() },
        Address { bytes: solana_program::sysvar::rent::id().to_bytes() },
    )
}

fn ticket(count: u64, deposit_time: i64, vesting_period: i64) -> Ticket {
    Ticket { number_of_tickets: count, deposit_time, vesting_period, claimed: false }
}

fn ledger_of(tickets: Vec<Ticket>) -> TicketAccount {
    let ticket_total = tickets.iter().map(|t| t.number_of_tickets).sum();
    TicketAccount { owner: owner(), tickets, ticket_total }
}

fn sum_of(ledger: &TicketAccount) -> u64 {
    ledger.tickets.iter().map(|t| t.number_of_tickets).sum()
}

#[test]
fn purchase_rounds_down_to_whole_tickets() {
    let policy = ticket_policy();
    let bought = TicketAccount::new(owner()).purchase(2_500_000, 0, 77, &policy).unwrap();
    assert_eq!(bought.count, 2);
    assert_eq!(bought.cost, 2_000_000);
    assert_eq!(bought.ledger.owner, owner());
    assert_eq!(bought.ledger.tickets, vec![ticket(2, 77, 0)]);
    assert_eq!(bought.ledger.ticket_total, 2);
}

#[test]
fn purchase_of_exactly_one_ticket() {
    let policy = ticket_policy();
    let bought = TicketAccount::new(owner()).purchase(1_000_000, 60, 5, &policy).unwrap();
    assert_eq!((bought.count, bought.cost), (1, 1_000_000));
    assert_eq!(bought.ledger.tickets, vec![ticket(1, 5, 60)]);
}

#[test]
fn purchase_below_the_price_buys_nothing() {
    let policy = ticket_policy();
    let ledger = TicketAccount::new(owner());
    assert_eq!(ledger.purchase(999_999, 0, 0, &policy), Err(Failure::ZeroTickets));
    assert_eq!(ledger.purchase(0, 0, 0, &policy), Err(Failure::ZeroTickets));
}

#[test]
fn purchases_append_in_order() {
    let policy = ticket_policy();
    let first = TicketAccount::new(owner()).purchase(1_000_000, 10, 1, &policy).unwrap();
    let second = first.ledger.purchase(3_999_999, 20, 2, &policy).unwrap();
    assert_eq!(second.ledger.tickets, vec![ticket(1, 1, 10), ticket(3, 2, 20)]);
    assert_eq!(second.ledger.ticket_total, 4);
    assert_eq!(first.ledger.tickets.len(), 1);
}

#[test]
fn purchase_into_a_full_queue_is_refused() {
    let policy = ticket_policy();
    let mut ledger = TicketAccount::new(owner());
    for i in 0..178 {
        ledger = ledger.purchase(1_000_000, 0, i, &policy).unwrap().ledger;
    }
    assert_eq!(ledger.tickets.len(), 178);
    assert_eq!(ledger.purchase(1_000_000, 0, 0, &policy), Err(Failure::TicketQueueFull));
    assert_eq!(ledger.purchase(1, 0, 0, &policy), Err(Failure::ZeroTickets));

    let mut small = ticket_policy();
    small.max_tickets = 0;
    assert_eq!(
        TicketAccount::new(owner()).purchase(1_000_000, 0, 0, &small),
        Err(Failure::TicketQueueFull)
    );
}

#[test]
fn purchase_past_sixty_four_bits_is_refused() {
    let policy = ticket_policy();
    let ledger = ledger_of(vec![ticket(u64::MAX - 1, 0, 0)]);
    assert_eq!(ledger.purchase(2_000_000, 0, 0, &policy), Err(Failure::ArithmeticOverflow));
    assert_eq!(ledger.purchase(1_000_000, 0, 0, &policy).unwrap().ledger.ticket_total, u64::MAX);
}

#[test]
fn redeem_skips_the_entry_that_is_still_vesting() {
    let policy = ticket_policy();
    let mut ledger = TicketAccount::new(owner());
    for vesting in [0i64, 100, 0] {
        ledger = ledger.purchase(1_000_000, vesting, 0, &policy).unwrap().ledger;
    }
    let done = ledger.redeem(&owner(), 2, 50).unwrap();
    assert_eq!(done.redeemed, 2);
    assert_eq!(done.payout, 2_000_000);
    assert_eq!(done.ledger.tickets, vec![ticket(1, 0, 100)]);
    assert_eq!(done.ledger.ticket_total, 1);

    let kept = ledger.clone();
    assert_eq!(
        ledger.redeem(&owner(), 3, 50),
        Err(Failure::Custom(CustomError::InsufficientVestedTickets))
    );
    assert_eq!(ledger, kept);
    assert_eq!(ledger.redeem(&owner(), 3, 100).unwrap().ledger.tickets, vec![]);
}

#[test]
fn redeem_takes_the_oldest_matured_units_first() {
    let ledger = ledger_of(vec![ticket(5, 0, 0), ticket(4, 10, 0), ticket(3, 20, 0)]);
    let done = ledger.redeem(&owner(), 7, 20).unwrap();
    assert_eq!(done.ledger.tickets, vec![ticket(2, 10, 0), ticket(3, 20, 0)]);
    assert_eq!(done.ledger.ticket_total, 5);
    assert_eq!(done.payout, 7_000_000);
}

#[test]
fn redeem_of_part_of_an_entry_leaves_the_rest_in_place() {
    let ledger = ledger_of(vec![ticket(5, 0, 0), ticket(1, 0, 1_000)]);
    let done = ledger.redeem(&owner(), 3, 10).unwrap();
    assert_eq!(done.ledger.tickets, vec![ticket(2, 0, 0), ticket(1, 0, 1_000)]);
    assert_eq!(done.ledger.ticket_total, 3);
}

#[test]
fn redeem_beyond_the_total_is_cut_down_to_the_total() {
    let ledger = ledger_of(vec![ticket(2, 0, 0), ticket(3, 0, 0)]);
    let done = ledger.redeem(&owner(), 1_000, 0).unwrap();
    assert_eq!(done.redeemed, 5);
    assert_eq!(done.payout, 5_000_000);
    assert_eq!(done.ledger.tickets, vec![]);
    assert_eq!(done.ledger.ticket_total, 0);

    let vesting = ledger_of(vec![ticket(2, 0, 0), ticket(3, 0, 500)]);
    assert_eq!(
        vesting.redeem(&owner(), 1_000, 0),
        Err(Failure::Custom(CustomError::InsufficientVestedTickets))
    );
}

#[test]
fn redeem_of_nothing_releases_nothing() {
    let ledger = ledger_of(vec![ticket(2, 0, 0)]);
    let done = ledger.redeem(&owner(), 0, 10).unwrap();
    assert_eq!((done.redeemed, done.payout), (0, 0));
    assert_eq!(done.ledger, ledger);
}

#[test]
fn redeem_by_a_stranger_is_refused_and_changes_nothing() {
    let ledger = ledger_of(vec![ticket(2, 0, 0)]);
    let kept = ledger.clone();
    let stranger = Address { bytes: [4; 32] };
    assert_eq!(
        ledger.redeem(&stranger, 1, 10),
        Err(Failure::Custom(CustomError::UnauthorizedAccess))
    );
    assert_eq!(ledger, kept);
    let empty = TicketAccount::new(owner());
    assert_eq!(
        empty.redeem(&stranger, 1, 10),
        Err(Failure::Custom(CustomError::UnauthorizedAccess))
    );
}

#[test]
fn redeem_from_an_empty_ledger_is_refused() {
    let empty = TicketAccount::new(owner());
    assert_eq!(
        empty.redeem(&owner(), 1, 10),
        Err(Failure::Custom(CustomError::InsufficientTickets))
    );
    assert_eq!(
        empty.redeem(&owner(), 0, 10),
        Err(Failure::Custom(CustomError::InsufficientTickets))
    );
}

#[test]
fn yield_is_five_percent_a_year_rounded_down() {
    assert_eq!(batch_value_checked(1, YEAR as u64), Some(1_050_000));
    assert_eq!(batch_value_checked(3, 2 * YEAR as u64), Some(3_300_000));
    assert_eq!(batch_value_checked(1, 0), Some(1_000_000));
    assert_eq!(batch_value_checked(0, YEAR as u64), Some(0));
    // 1 * 1_000_000 * 5 * 86_400 / 31_536_000 = 13_698.6..., then / 100 = 136.98...
    assert_eq!(batch_value_checked(1, 86_400), Some(1_000_136));
    // 3 * 1_000_000 * 5 * 8_640_000 / 31_536_000 = 4_109_589.04..., then / 100
    assert_eq!(batch_value_checked(3, 8_640_000), Some(3_041_095));
    // one second short of the first whole unit of yield: 631 s give 100.04 / 100
    assert_eq!(batch_value_checked(1, 630), Some(1_000_000));
    assert_eq!(batch_value_checked(1, 631), Some(1_000_001));
}

#[test]
fn yield_follows_the_integer_formula() {
    for units in [1u64, 2, 7, 178, 10_000] {
        for seconds in [0u64, 1, 59, 3_600, 86_400, 2_592_000, 31_535_999, 31_536_000, 99_999_999] {
            let gain = units * 1_000_000 * 5 * seconds / (365 * 24 * 60 * 60) / 100;
            assert_eq!(batch_value_checked(units, seconds), Some(units * 1_000_000 + gain));
        }
    }
}

#[test]
fn value_past_sixty_four_bits_is_reported() {
    assert_eq!(batch_value_checked(u64::MAX, 0), None);
    assert_eq!(batch_value_checked(18_446_744_073_709, 0), Some(18_446_744_073_709_000_000));
    assert_eq!(batch_value_checked(18_446_744_073_710, 0), None);
    assert_eq!(batch_value_checked(u64::MAX, u64::MAX), None);
    assert_eq!(batch_value_checked(1, u64::MAX), Some(29_247_120_868_753_601));
}

#[test]
fn redeem_pays_each_entry_for_its_own_time() {
    let ledger = ledger_of(vec![ticket(1, 0, 0), ticket(2, YEAR, 0)]);
    let done = ledger.redeem(&owner(), 3, 2 * YEAR).unwrap();
    // one unit for two years, two units for one year
    assert_eq!(done.payout, 1_100_000 + 2_100_000);
    let early = ledger.redeem(&owner(), 3, YEAR).unwrap();
    assert_eq!(early.payout, 1_050_000 + 2_000_000);
}

#[test]
fn redeem_before_the_deposit_time_pays_no_yield() {
    let ledger = ledger_of(vec![ticket(4, 1_000, -900)]);
    let done = ledger.redeem(&owner(), 4, 100).unwrap();
    assert_eq!(done.payout, 4_000_000);
    assert_eq!(
        ledger.redeem(&owner(), 4, 99),
        Err(Failure::Custom(CustomError::InsufficientVestedTickets))
    );
}

#[test]
fn redeem_past_sixty_four_bits_is_refused() {
    let ledger = ledger_of(vec![ticket(18_446_744_073_709, 0, 0), ticket(1, 0, 0)]);
    assert_eq!(ledger.redeem(&owner(), 18_446_744_073_710, 0), Err(Failure::ArithmeticOverflow));
    assert_eq!(
        ledger.redeem(&owner(), 18_446_744_073_709, 0).unwrap().payout,
        18_446_744_073_709_000_000
    );
    let vesting = ledger_of(vec![ticket(18_446_744_073_709, 0, 0), ticket(1, 0, 10)]);
    assert_eq!(
        vesting.redeem(&owner(), 18_446_744_073_710, 0),
        Err(Failure::Custom(CustomError::InsufficientVestedTickets))
    );
}

#[test]
fn total_is_the_sum_after_any_calls() {
    let policy = ticket_policy();
    let mut ledger = TicketAccount::new(owner());
    let mut now = 0i64;
    let amounts = [1_000_000u64, 5_500_000, 999_999, 3_000_000, 12_345_678, 0, 2_000_000];
    for round in 0..40usize {
        now += 37;
        if round % 3 != 2 {
            let amount = amounts[round % amounts.len()];
            let vesting = ((round * 53) % 200) as i64;
            if let Ok(bought) = ledger.purchase(amount, vesting, now, &policy) {
                ledger = bought.ledger;
            }
        } else {
            let requested = (round % 7) as u64 + 1;
            let actor = if round % 10 == 8 { Address { bytes: [9; 32] } } else { owner() };
            if let Ok(done) = ledger.redeem(&actor, requested, now) {
                assert_eq!(done.ledger.ticket_total + done.redeemed, ledger.ticket_total);
                ledger = done.ledger;
            }
        }
        assert_eq!(ledger.ticket_total, sum_of(&ledger));
        assert!(ledger.tickets.iter().all(|t| t.number_of_tickets > 0));
    }
    assert!(!ledger.tickets.is_empty());
}

#[test]
fn ledger_layout_is_header_then_entries() {
    let ledger = ledger_of(vec![ticket(2, -5, 100), Ticket {
        number_of_tickets: 7,
        deposit_time: 1_700_000_000,
        vesting_period: 0,
        claimed: true,
    }]);
    let data = ledger.to_bytes();
    assert_eq!(data.len(), 44 + 2 * 25);
    assert_eq!(data.len(), ledger_size_of(2));
    assert_eq!((LEDGER_HEADER_SIZE, TICKET_SIZE), (44, 25));
    assert_eq!(data[..32], [3u8; 32]);
    assert_eq!(data[32..40], 9u64.to_le_bytes());
    assert_eq!(data[40..44], 2u32.to_le_bytes());
    assert_eq!(data[44..52], 2u64.to_le_bytes());
    assert_eq!(data[52..60], (-5i64).to_le_bytes());
    assert_eq!(data[60..68], 100i64.to_le_bytes());
    assert_eq!(data[68], 0);
    assert_eq!(data[69..77], 7u64.to_le_bytes());
    assert_eq!(data[93], 1);
    assert_eq!(TicketAccount::from_bytes(&data), Some(ledger));
}

#[test]
fn ledger_layout_is_what_borsh_writes() {
    let ledger = ledger_of(vec![ticket(2, -5, 100), ticket(1, 9, 0)]);
    let entries: Vec<(u64, i64, i64, bool)> =
        vec![(2, -5, 100, false), (1, 9, 0, false)];
    let written = borsh::to_vec(&([3u8; 32], 3u64, entries.clone())).unwrap();
    assert_eq!(ledger.to_bytes(), written);
    let read: ([u8; 32], u64, Vec<(u64, i64, i64, bool)>) =
        borsh::from_slice(&ledger.to_bytes()).unwrap();
    assert_eq!(read, ([3u8; 32], 3, entries));
}

#[test]
fn empty_ledger_is_the_header_alone() {
    let empty = TicketAccount::new(owner());
    let data = empty.to_bytes();
    assert_eq!(data.len(), 44);
    assert_eq!(TicketAccount::from_bytes(&data), Some(empty));
}

#[test]
fn bytes_that_are_no_ledger_are_not_read() {
    let good = ledger_of(vec![ticket(2, 0, 0), ticket(1, 0, 0)]).to_bytes();
    assert!(TicketAccount::from_bytes(&good).is_some());

    assert_eq!(TicketAccount::from_bytes(&[]), None);
    assert_eq!(TicketAccount::from_bytes(&good[..43]), None);
    assert_eq!(TicketAccount::from_bytes(&good[..good.len() - 1]), None);
    let mut longer = good.clone();
    longer.push(0);
    assert_eq!(TicketAccount::from_bytes(&longer), None);

    let mut bad_flag = good.clone();
    bad_flag[44 + 24] = 2;
    assert_eq!(TicketAccount::from_bytes(&bad_flag), None);

    let mut bad_total = good.clone();
    bad_total[32] = 4;
    assert_eq!(TicketAccount::from_bytes(&bad_total), None);

    let mut no_units = good.clone();
    no_units[44] = 0;
    no_units[32] = 1;
    assert_eq!(TicketAccount::from_bytes(&no_units), None);

    let mut bad_count = good.clone();
    bad_count[40] = 3;
    assert_eq!(TicketAccount::from_bytes(&bad_count), None);
    bad_count[40..44].copy_from_slice(&u32::MAX.to_le_bytes());
    assert_eq!(TicketAccount::from_bytes(&bad_count), None);

    let mut overflowing = good.clone();
    overflowing[44..52].copy_from_slice(&u64::MAX.to_le_bytes());
    assert_eq!(TicketAccount::from_bytes(&overflowing), None);
}
