//! The ticket engine: fixed-price, time-locked claims on principal plus a
//! linear yield, queued first-in first-out in one ledger per actor.
//!
//! Purchase appends one entry. Redemption walks the queue from the front,
//! passes over entries that are still vesting, and takes units from matured
//! entries until the request is met. The whole walk is computed before anything
//! is released: a request that the matured entries cannot meet fails and leaves
//! the ledger as it was.

use crate::address::Address;
use crate::error::{CustomError, Failure};
use crate::policy::{
    Policy, FIXED_TICKET_PRICE, LEDGER_ENTRY_LIMIT, SECONDS_PER_YEAR, YIELD_INTEREST_RATE,
};
use vstd::prelude::*;

verus! {

/// One purchase: a number of units bought together and vesting together.
#[derive(Clone, Copy, Debug, PartialEq, Eq, Structural)]
pub struct Ticket {
    /// Units not yet redeemed; above zero for as long as the entry exists.
    pub number_of_tickets: u64,
    /// When the units were bought.
    pub deposit_time: i64,
    /// Seconds after `deposit_time` during which the units cannot be redeemed.
    pub vesting_period: i64,
    /// Reserved; every entry is written with `false`.
    pub claimed: bool,
}

/// The ticket ledger of one actor.
#[derive(Clone, Debug, PartialEq, Eq)]
pub struct TicketAccount {
    /// The actor who may redeem.
    pub owner: Address,
    /// The outstanding entries, oldest first.
    pub tickets: Vec<Ticket>,
    /// The sum of the units over all entries.
    pub ticket_total: u64,
}

/// A ledger as a mathematical value.
pub struct LedgerView {
    pub owner: Seq<u8>,
    pub tickets: Seq<Ticket>,
    pub ticket_total: u64,
}

impl View for TicketAccount {
    type V = LedgerView;

    open spec fn view(&self) -> LedgerView {
        LedgerView { owner: self.owner@, tickets: self.tickets@, ticket_total: self.ticket_total }
    }
}

/// What a purchase comes to.
#[derive(Clone, Debug, PartialEq, Eq)]
pub struct Purchase {
    /// Units bought.
    pub count: u64,
    /// Base units to move into custody: the price of `count` units. What the
    /// buyer offered beyond it stays with the buyer.
    pub cost: u64,
    /// The ledger with the new entry.
    pub ledger: TicketAccount,
}

/// What a redemption comes to.
#[derive(Clone, Debug, PartialEq, Eq)]
pub struct Redemption {
    /// Units redeemed: the request, or the ledger's total where that is less.
    pub redeemed: u64,
    /// Base units to release: principal and yield of every unit redeemed.
    pub payout: u64,
    /// The ledger without the redeemed units.
    pub ledger: TicketAccount,
}

/// The sum of the units over a run of entries.
pub open spec fn count_sum(tickets: Seq<Ticket>) -> nat
    decreases tickets.len(),
{
    if tickets.len() == 0 {
        0
    } else {
        count_sum(tickets.drop_last()) + tickets.last().number_of_tickets as nat
    }
}

/// Whether an entry's vesting period is over at `now`.
pub open spec fn matured(ticket: Ticket, now: int) -> bool {
    now >= ticket.deposit_time + ticket.vesting_period
}

/// The matured units among the first `upto` entries.
pub open spec fn matured_before(tickets: Seq<Ticket>, upto: int, now: int) -> nat
    decreases upto,
{
    if upto <= 0 {
        0
    } else {
        matured_before(tickets, upto - 1, now) + if matured(tickets[upto - 1], now) {
            tickets[upto - 1].number_of_tickets as nat
        } else {
            0
        }
    }
}

/// The units that a redemption of `want` units takes from entry `at`: none from
/// an entry still vesting; from a matured one, what the matured entries before
/// it have left of the request, up to all it has.
pub open spec fn taken(tickets: Seq<Ticket>, at: int, want: nat, now: int) -> nat {
    let before = matured_before(tickets, at, now);
    if matured(tickets[at], now) && before < want {
        if tickets[at].number_of_tickets <= want - before {
            tickets[at].number_of_tickets as nat
        } else {
            (want - before) as nat
        }
    } else {
        0
    }
}

/// Seconds from `since` to `now`; none where `now` is not later.
pub open spec fn elapsed(since: int, now: int) -> nat {
    if now > since {
        (now - since) as nat
    } else {
        0
    }
}

/// The yield of `units` units held for `seconds`: five percent of their price
/// per year, in whole base units. The product is formed first and divided
/// after, each division rounding down.
pub open spec fn ticket_yield(units: nat, seconds: nat) -> nat {
    units * seconds * FIXED_TICKET_PRICE as nat * YIELD_INTEREST_RATE as nat
        / SECONDS_PER_YEAR as nat / 100
}

/// Principal and yield of `units` units held for `seconds`.
pub open spec fn batch_value(units: nat, seconds: nat) -> nat {
    units * FIXED_TICKET_PRICE as nat + ticket_yield(units, seconds)
}

/// What a redemption of `want` units releases for the first `upto` entries.
pub open spec fn payout_upto(tickets: Seq<Ticket>, upto: int, want: nat, now: int) -> nat
    decreases upto,
{
    if upto <= 0 {
        0
    } else {
        payout_upto(tickets, upto - 1, want, now) + batch_value(
            taken(tickets, upto - 1, want, now),
            elapsed(tickets[upto - 1].deposit_time as int, now),
        )
    }
}

/// What a redemption of `want` units leaves of the first `upto` entries: each
/// with the units not taken from it, in the old order, without those that have
/// none left.
pub open spec fn kept_upto(tickets: Seq<Ticket>, upto: int, want: nat, now: int) -> Seq<Ticket>
    decreases upto,
{
    if upto <= 0 {
        Seq::empty()
    } else {
        let earlier = kept_upto(tickets, upto - 1, want, now);
        let ticket = tickets[upto - 1];
        let used = taken(tickets, upto - 1, want, now);
        if used < ticket.number_of_tickets {
            earlier.push(
                Ticket {
                    number_of_tickets: (ticket.number_of_tickets - used) as u64,
                    deposit_time: ticket.deposit_time,
                    vesting_period: ticket.vesting_period,
                    claimed: ticket.claimed,
                },
            )
        } else {
            earlier
        }
    }
}

impl LedgerView {
    /// The ledger's invariant: the total is the sum of the units over the
    /// entries, no entry is without units, and the entries are no more than a
    /// ledger's bytes can hold.
    pub open spec fn wf(self) -> bool {
        &&& self.owner.len() == 32
        &&& self.ticket_total == count_sum(self.tickets)
        &&& forall|i: int| 0 <= i < self.tickets.len() ==> self.tickets[i].number_of_tickets > 0
        &&& self.tickets.len() <= LEDGER_ENTRY_LIMIT
    }

    /// Whether the ledger can take no further entry under `max_tickets`.
    pub open spec fn full(self, max_tickets: usize) -> bool {
        self.tickets.len() >= max_tickets || self.tickets.len() >= LEDGER_ENTRY_LIMIT
    }

    /// The first reason, if any, for which a purchase for `amount` is refused.
    pub open spec fn purchase_failure(self, amount: u64, max_tickets: usize) -> Option<Failure> {
        if amount / FIXED_TICKET_PRICE == 0 {
            Some(Failure::ZeroTickets)
        } else if self.full(max_tickets) {
            Some(Failure::TicketQueueFull)
        } else if self.ticket_total + amount / FIXED_TICKET_PRICE > u64::MAX {
            Some(Failure::ArithmeticOverflow)
        } else {
            None
        }
    }

    /// The ledger after a purchase for `amount` at `now`.
    pub open spec fn purchased(self, amount: u64, vesting_period: i64, now: i64) -> LedgerView {
        LedgerView {
            owner: self.owner,
            tickets: self.tickets.push(
                Ticket {
                    number_of_tickets: amount / FIXED_TICKET_PRICE,
                    deposit_time: now,
                    vesting_period,
                    claimed: false,
                },
            ),
            ticket_total: (self.ticket_total + amount / FIXED_TICKET_PRICE) as u64,
        }
    }

    /// The units that a request for `requested` units is served with: a request
    /// beyond the ledger's total is cut down to the total, not refused.
    pub open spec fn redeem_want(self, requested: u64) -> nat {
        if requested <= self.ticket_total {
            requested as nat
        } else {
            self.ticket_total as nat
        }
    }

    /// The matured units in the whole ledger.
    pub open spec fn matured_total(self, now: int) -> nat {
        matured_before(self.tickets, self.tickets.len() as int, now)
    }

    /// What a redemption of `requested` units releases.
    pub open spec fn payout(self, requested: u64, now: int) -> nat {
        payout_upto(self.tickets, self.tickets.len() as int, self.redeem_want(requested), now)
    }

    /// The first reason, if any, for which `actor`'s redemption is refused.
    pub open spec fn redeem_failure(self, actor: Seq<u8>, requested: u64, now: int) -> Option<
        Failure,
    > {
        if self.owner != actor {
            Some(Failure::Custom(CustomError::UnauthorizedAccess))
        } else if self.ticket_total == 0 {
            Some(Failure::Custom(CustomError::InsufficientTickets))
        } else if self.matured_total(now) < self.redeem_want(requested) {
            Some(Failure::Custom(CustomError::InsufficientVestedTickets))
        } else if self.payout(requested, now) > u64::MAX {
            Some(Failure::ArithmeticOverflow)
        } else {
            None
        }
    }

    /// The ledger after a redemption of `requested` units at `now`.
    pub open spec fn redeemed(self, requested: u64, now: int) -> LedgerView {
        LedgerView {
            owner: self.owner,
            tickets: kept_upto(
                self.tickets,
                self.tickets.len() as int,
                self.redeem_want(requested),
                now,
            ),
            ticket_total: (self.ticket_total - self.redeem_want(requested)) as u64,
        }
    }
}

/// Adding an entry adds its units to the sum.
pub proof fn lemma_count_sum_push(tickets: Seq<Ticket>, ticket: Ticket)
    ensures
        count_sum(tickets.push(ticket)) == count_sum(tickets) + ticket.number_of_tickets,
{
    assert(tickets.push(ticket).drop_last() =~= tickets);
}

/// What a redemption keeps and what it takes add up to what was there: the
/// units kept of the first `upto` entries, and the units of the request that
/// the matured ones among them serve, are the units of those entries. No entry
/// is kept without units, and none is added.
pub proof fn lemma_kept_accounts(tickets: Seq<Ticket>, upto: int, want: nat, now: int)
    requires
        0 <= upto <= tickets.len(),
    ensures
        kept_upto(tickets, upto, want, now).len() <= upto,
        forall|i: int|
            0 <= i < kept_upto(tickets, upto, want, now).len() ==> kept_upto(
                tickets,
                upto,
                want,
                now,
            )[i].number_of_tickets > 0,
        count_sum(kept_upto(tickets, upto, want, now)) + (if matured_before(tickets, upto, now)
            <= want {
            matured_before(tickets, upto, now)
        } else {
            want
        }) == count_sum(tickets.take(upto)),
    decreases upto,
{
    if upto > 0 {
        lemma_kept_accounts(tickets, upto - 1, want, now);
        assert(tickets.take(upto).drop_last() =~= tickets.take(upto - 1));
        let earlier = kept_upto(tickets, upto - 1, want, now);
        let ticket = tickets[upto - 1];
        let used = taken(tickets, upto - 1, want, now);
        if used < ticket.number_of_tickets {
            let rest = Ticket {
                number_of_tickets: (ticket.number_of_tickets - used) as u64,
                deposit_time: ticket.deposit_time,
                vesting_period: ticket.vesting_period,
                claimed: ticket.claimed,
            };
            lemma_count_sum_push(earlier, rest);
        }
    } else {
        assert(tickets.take(0) =~= Seq::<Ticket>::empty());
    }
}

/// A purchase that is not refused leaves a ledger that meets the invariant.
pub proof fn lemma_purchase_keeps_invariant(
    ledger: LedgerView,
    amount: u64,
    vesting_period: i64,
    now: i64,
    max_tickets: usize,
)
    requires
        ledger.wf(),
        ledger.purchase_failure(amount, max_tickets) is None,
    ensures
        ledger.purchased(amount, vesting_period, now).wf(),
{
    let ticket = Ticket {
        number_of_tickets: amount / FIXED_TICKET_PRICE,
        deposit_time: now,
        vesting_period,
        claimed: false,
    };
    lemma_count_sum_push(ledger.tickets, ticket);
}

/// A redemption that is not refused leaves a ledger that meets the invariant:
/// its total has gone down by exactly the units redeemed, and is again the sum
/// over its entries.
pub proof fn lemma_redeem_keeps_invariant(
    ledger: LedgerView,
    actor: Seq<u8>,
    requested: u64,
    now: int,
)
    requires
        ledger.wf(),
        ledger.redeem_failure(actor, requested, now) is None,
    ensures
        ledger.redeemed(requested, now).wf(),
        ledger.redeemed(requested, now).ticket_total + ledger.redeem_want(requested)
            == ledger.ticket_total,
{
    let n = ledger.tickets.len() as int;
    lemma_kept_accounts(ledger.tickets, n, ledger.redeem_want(requested), now);
    assert(ledger.tickets.take(n) =~= ledger.tickets);
}

/// Nothing beyond the offer is moved: the cost of a purchase is never more than
/// the amount offered, and what it leaves of the amount is less than one ticket's
/// price.
pub proof fn lemma_cost_within_amount(amount: u64)
    ensures
        amount / FIXED_TICKET_PRICE * FIXED_TICKET_PRICE <= amount,
        amount - amount / FIXED_TICKET_PRICE * FIXED_TICKET_PRICE < FIXED_TICKET_PRICE,
{
}

/// A redemption releases at least the principal: what it releases for the first
/// `upto` entries is no less than the price of the units that it takes from
/// them.
pub proof fn lemma_payout_covers_principal(tickets: Seq<Ticket>, upto: int, want: nat, now: int)
    requires
        0 <= upto <= tickets.len(),
    ensures
        payout_upto(tickets, upto, want, now) >= FIXED_TICKET_PRICE * (if matured_before(
            tickets,
            upto,
            now,
        ) <= want {
            matured_before(tickets, upto, now)
        } else {
            want
        }),
    decreases upto,
{
    if upto > 0 {
        lemma_payout_covers_principal(tickets, upto - 1, want, now);
    }
}

/// One call on a ledger.
pub enum LedgerCall {
    Purchase { amount: u64, vesting_period: i64, now: i64 },
    Redeem { actor: Seq<u8>, requested: u64, now: i64 },
}

impl LedgerView {
    /// The empty ledger of `owner`.
    pub open spec fn empty(owner: Seq<u8>) -> LedgerView {
        LedgerView { owner, tickets: Seq::empty(), ticket_total: 0 }
    }

    /// The ledger after one call: changed as the call says where the call is
    /// not refused, and as it was where it is.
    pub open spec fn after(self, call: LedgerCall, max_tickets: usize) -> LedgerView {
        match call {
            LedgerCall::Purchase { amount, vesting_period, now } => if self.purchase_failure(
                amount,
                max_tickets,
            ) is None {
                self.purchased(amount, vesting_period, now)
            } else {
                self
            },
            LedgerCall::Redeem { actor, requested, now } => if self.redeem_failure(
                actor,
                requested,
                now as int,
            ) is None {
                self.redeemed(requested, now as int)
            } else {
                self
            },
        }
    }

    /// The ledger after a series of calls, one after the other.
    pub open spec fn after_all(self, calls: Seq<LedgerCall>, max_tickets: usize) -> LedgerView
        decreases calls.len(),
    {
        if calls.len() == 0 {
            self
        } else {
            self.after_all(calls.drop_last(), max_tickets).after(calls.last(), max_tickets)
        }
    }
}

/// The total is the sum, always: after any series of purchases and redemptions
/// on a ledger that started empty, refused or not, in any order and at any
/// times, the ledger's total is the sum of the units over its entries, and no
/// entry is without units.
pub proof fn lemma_total_is_sum_after_any_calls(
    owner: Seq<u8>,
    calls: Seq<LedgerCall>,
    max_tickets: usize,
)
    requires
        owner.len() == 32,
    ensures
        LedgerView::empty(owner).after_all(calls, max_tickets).wf(),
        LedgerView::empty(owner).after_all(calls, max_tickets).ticket_total == count_sum(
            LedgerView::empty(owner).after_all(calls, max_tickets).tickets,
        ),
    decreases calls.len(),
{
    if calls.len() > 0 {
        lemma_total_is_sum_after_any_calls(owner, calls.drop_last(), max_tickets);
        let before = LedgerView::empty(owner).after_all(calls.drop_last(), max_tickets);
        match calls.last() {
            LedgerCall::Purchase { amount, vesting_period, now } => {
                if before.purchase_failure(amount, max_tickets) is None {
                    lemma_purchase_keeps_invariant(
                        before,
                        amount,
                        vesting_period,
                        now,
                        max_tickets,
                    );
                }
            },
            LedgerCall::Redeem { actor, requested, now } => {
                if before.redeem_failure(actor, requested, now as int) is None {
                    lemma_redeem_keeps_invariant(before, actor, requested, now as int);
                }
            },
        }
    }
}

/// A refused redemption changes nothing: the ledger after it is the ledger
/// before it. So it is for a redemption by anyone but the owner.
pub proof fn lemma_refused_redeem_changes_nothing(
    ledger: LedgerView,
    actor: Seq<u8>,
    requested: u64,
    now: i64,
    max_tickets: usize,
)
    ensures
        ledger.redeem_failure(actor, requested, now as int) is Some ==> ledger.after(
            LedgerCall::Redeem { actor, requested, now },
            max_tickets,
        ) == ledger,
        ledger.owner != actor ==> ledger.redeem_failure(actor, requested, now as int) == Some(
            Failure::Custom(CustomError::UnauthorizedAccess),
        ),
{
}

/// Redemption is first-in first-out over the matured entries: a later entry
/// gives up units only when every matured entry before it has given up all of
/// its own.
pub proof fn lemma_redeem_first_in_first_out(
    tickets: Seq<Ticket>,
    earlier: int,
    later: int,
    want: nat,
    now: int,
)
    requires
        0 <= earlier < later < tickets.len(),
        matured(tickets[earlier], now),
        taken(tickets, later, want, now) > 0,
    ensures
        taken(tickets, earlier, want, now) == tickets[earlier].number_of_tickets,
{
    lemma_matured_before_grows(tickets, earlier + 1, later, now);
}

/// The matured units among the first entries do not grow fewer as more entries
/// are counted.
pub proof fn lemma_matured_before_grows(tickets: Seq<Ticket>, fewer: int, more: int, now: int)
    requires
        0 <= fewer <= more,
    ensures
        matured_before(tickets, fewer, now) <= matured_before(tickets, more, now),
    decreases more - fewer,
{
    if fewer < more {
        lemma_matured_before_grows(tickets, fewer, more - 1, now);
    }
}

/// Principal and yield of `units` units held for `seconds`, or `None` where the
/// sum does not fit in 64 bits.
pub fn batch_value_checked(units: u64, seconds: u64) -> (value: Option<u64>)
    ensures
        match value {
            Some(v) => v == batch_value(units as nat, seconds as nat),
            None => batch_value(units as nat, seconds as nat) > u64::MAX,
        },
{
    let principal: u128 = units as u128 * FIXED_TICKET_PRICE as u128;
    let weighted: u128 = principal * YIELD_INTEREST_RATE as u128;
    assert(weighted * (seconds as u128) == units as nat * seconds as nat
        * FIXED_TICKET_PRICE as nat * YIELD_INTEREST_RATE as nat) by (nonlinear_arith)
        requires
            weighted == units as nat * FIXED_TICKET_PRICE as nat * YIELD_INTEREST_RATE as nat,
    ;
    match weighted.checked_mul(seconds as u128) {
        None => None,
        Some(numerator) => {
            let gain: u128 = numerator / SECONDS_PER_YEAR as u128 / 100;
            let total: u128 = principal + gain;
            if total > u64::MAX as u128 {
                None
            } else {
                Some(total as u64)
            }
        },
    }
}

impl TicketAccount {
    /// The empty ledger of `owner`.
    pub fn new(owner: Address) -> (ledger: TicketAccount)
        ensures
            ledger@.owner == owner@,
            ledger@.tickets == Seq::<Ticket>::empty(),
            ledger@.ticket_total == 0,
            ledger@.wf(),
    {
        TicketAccount { owner, tickets: Vec::new(), ticket_total: 0 }
    }

    /// Buys as many tickets as `amount` pays for, vesting for `vesting_period`
    /// seconds from `now`.
    ///
    /// The count is `amount` divided by the ticket price, rounded down, and the
    /// cost is the price of that many; the remainder of `amount` is not touched.
    /// Refused with `ZeroTickets` where `amount` is below one ticket's price,
    /// with `TicketQueueFull` where the ledger already holds `max_tickets`
    /// entries, and with `ArithmeticOverflow` where the total would pass 64
    /// bits.
    pub fn purchase(
        &self,
        amount: u64,
        vesting_period: i64,
        now: i64,
        policy: &Policy,
    ) -> (result: Result<Purchase, Failure>)
        ensures
            match result {
                Ok(bought) => {
                    &&& self@.purchase_failure(amount, policy.max_tickets) is None
                    &&& bought.count == amount / FIXED_TICKET_PRICE
                    &&& bought.cost == bought.count * FIXED_TICKET_PRICE
                    &&& bought.ledger@ == self@.purchased(amount, vesting_period, now)
                    &&& self@.wf() ==> bought.ledger@.wf()
                },
                Err(failure) => self@.purchase_failure(amount, policy.max_tickets) == Some(
                    failure,
                ),
            },
    {
        let count: u64 = amount / FIXED_TICKET_PRICE;
        if count == 0 {
            return Err(Failure::ZeroTickets);
        }
        if self.tickets.len() >= policy.max_tickets || self.tickets.len() >= LEDGER_ENTRY_LIMIT {
            return Err(Failure::TicketQueueFull);
        }
        if count > u64::MAX - self.ticket_total {
            return Err(Failure::ArithmeticOverflow);
        }
        let cost: u64 = count * FIXED_TICKET_PRICE;
        let mut tickets: Vec<Ticket> = Vec::new();
        let mut i: usize = 0;
        while i < self.tickets.len()
            invariant
                i <= self.tickets.len(),
                tickets@ == self.tickets@.take(i as int),
            decreases self.tickets.len() - i,
        {
            tickets.push(self.tickets[i]);
            assert(self.tickets@.take(i + 1) =~= self.tickets@.take(i as int).push(
                self.tickets@[i as int],
            ));
            i += 1;
        }
        assert(self.tickets@.take(i as int) =~= self.tickets@);
        tickets.push(
            Ticket { number_of_tickets: count, deposit_time: now, vesting_period, claimed: false },
        );
        let ledger = TicketAccount {
            owner: self.owner,
            tickets,
            ticket_total: self.ticket_total + count,
        };
        proof {
            if self@.wf() {
                lemma_purchase_keeps_invariant(
                    self@,
                    amount,
                    vesting_period,
                    now,
                    policy.max_tickets,
                );
            }
        }
        Ok(Purchase { count, cost, ledger })
    }

    /// Redeems `requested` units for `actor` at `now`.
    ///
    /// A request beyond the ledger's total is served as a request for the
    /// total. Entries are visited oldest first; one that is still vesting is
    /// passed over and does not hold up the matured entries behind it. Refused
    /// with `UnauthorizedAccess` where `actor` is not the owner, with
    /// `InsufficientTickets` where the ledger holds no units, with
    /// `InsufficientVestedTickets` where the matured units are fewer than the
    /// request, and with `ArithmeticOverflow` where the payout would pass 64
    /// bits. The ledger itself is never changed: the caller stores the ledger
    /// that a successful redemption returns.
    pub fn redeem(&self, actor: &Address, requested: u64, now: i64) -> (result: Result<
        Redemption,
        Failure,
    >)
        ensures
            match result {
                Ok(done) => {
                    &&& self@.redeem_failure(actor@, requested, now as int) is None
                    &&& done.redeemed == self@.redeem_want(requested)
                    &&& done.payout == self@.payout(requested, now as int)
                    &&& done.ledger@ == self@.redeemed(requested, now as int)
                    &&& self@.wf() ==> done.ledger@.wf()
                },
                Err(failure) => self@.redeem_failure(actor@, requested, now as int) == Some(
                    failure,
                ),
            },
    {
        if self.owner != *actor {
            return Err(Failure::Custom(CustomError::UnauthorizedAccess));
        }
        if self.ticket_total == 0 {
            return Err(Failure::Custom(CustomError::InsufficientTickets));
        }
        let want: u64 = if requested <= self.ticket_total {
            requested
        } else {
            self.ticket_total
        };
        let mut remaining: u64 = want;
        let mut payout: u64 = 0;
        let mut overflow: bool = false;
        let mut kept: Vec<Ticket> = Vec::new();
        let mut i: usize = 0;
        while i < self.tickets.len()
            invariant
                i <= self.tickets.len(),
                want == self@.redeem_want(requested),
                remaining as int == (if matured_before(self.tickets@, i as int, now as int)
                    >= want {
                    0
                } else {
                    want - matured_before(self.tickets@, i as int, now as int)
                }),
                kept@ == kept_upto(self.tickets@, i as int, want as nat, now as int),
                !overflow ==> payout == payout_upto(
                    self.tickets@,
                    i as int,
                    want as nat,
                    now as int,
                ),
                overflow ==> payout_upto(self.tickets@, i as int, want as nat, now as int)
                    > u64::MAX,
            decreases self.tickets.len() - i,
        {
            let ticket: Ticket = self.tickets[i];
            let ripe: bool = now as i128 >= ticket.deposit_time as i128
                + ticket.vesting_period as i128;
            let mut used: u64 = 0;
            if ripe && remaining > 0 {
                used = if ticket.number_of_tickets <= remaining {
                    ticket.number_of_tickets
                } else {
                    remaining
                };
                remaining = remaining - used;
            }
            assert(used == taken(self.tickets@, i as int, want as nat, now as int));
            let seconds: u64 = if now > ticket.deposit_time {
                (now as i128 - ticket.deposit_time as i128) as u64
            } else {
                0
            };
            assert(seconds == elapsed(ticket.deposit_time as int, now as int));
            if !overflow {
                match batch_value_checked(used, seconds) {
                    Some(value) => {
                        if value > u64::MAX - payout {
                            overflow = true;
                        } else {
                            payout = payout + value;
                        }
                    },
                    None => {
                        overflow = true;
                    },
                }
            }
            if used < ticket.number_of_tickets {
                kept.push(
                    Ticket {
                        number_of_tickets: ticket.number_of_tickets - used,
                        deposit_time: ticket.deposit_time,
                        vesting_period: ticket.vesting_period,
                        claimed: ticket.claimed,
                    },
                );
            }
            i += 1;
        }
        if remaining > 0 {
            return Err(Failure::Custom(CustomError::InsufficientVestedTickets));
        }
        if overflow {
            return Err(Failure::ArithmeticOverflow);
        }
        let ledger = TicketAccount {
            owner: self.owner,
            tickets: kept,
            ticket_total: self.ticket_total - want,
        };
        proof {
            if self@.wf() {
                lemma_redeem_keeps_invariant(self@, actor@, requested, now as int);
            }
        }
        Ok(Redemption { redeemed: want, payout, ledger })
    }
}

} // verus!
