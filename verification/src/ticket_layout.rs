//! The bytes of a ticket ledger.
//!
//! A ledger is stored as its owner's 32-byte address, the 8-byte total, a
//! 4-byte count of entries and then the entries, 25 bytes each: units, deposit
//! time and vesting period in 8 bytes each, and one byte for the reserved flag.
//! Every number is little-endian. A record is read back only if it is exactly
//! such a run of bytes and the ledger it holds meets the ledger's invariant.

use crate::address::Address;
use crate::layout::{
    le_bytes, le_i64_bytes, le_i64_value, le_value, lemma_le_bytes_len, lemma_le_bytes_of_value,
    lemma_le_i64_bytes_of_value, lemma_le_i64_value_of_bytes, lemma_le_value_bound,
    lemma_le_value_of_bytes, lemma_radix_values, read_block, read_i64, read_le, write_bytes,
    write_i64, write_le,
};
use crate::policy::LEDGER_ENTRY_LIMIT;
use crate::tickets::{count_sum, lemma_count_sum_push, LedgerView, Ticket, TicketAccount};
use vstd::prelude::*;

verus! {

/// Bytes before the first entry: owner, total and entry count.
pub const LEDGER_HEADER_SIZE: usize = 44;

/// Bytes of one entry.
pub const TICKET_SIZE: usize = 25;

/// The size of a ledger with `entries` entries.
pub open spec fn ledger_size(entries: nat) -> nat {
    LEDGER_HEADER_SIZE as nat + TICKET_SIZE as nat * entries
}

/// The 25 bytes of one entry.
pub open spec fn ticket_bytes(ticket: Ticket) -> Seq<u8> {
    le_bytes(ticket.number_of_tickets as nat, 8) + le_i64_bytes(ticket.deposit_time as int)
        + le_i64_bytes(ticket.vesting_period as int) + seq![
        if ticket.claimed {
            1u8
        } else {
            0u8
        },
    ]
}

/// The bytes of a run of entries, one after the other.
pub open spec fn tickets_bytes(tickets: Seq<Ticket>) -> Seq<u8>
    decreases tickets.len(),
{
    if tickets.len() == 0 {
        Seq::empty()
    } else {
        tickets_bytes(tickets.drop_last()) + ticket_bytes(tickets.last())
    }
}

/// The bytes of a ledger.
pub open spec fn ledger_bytes(ledger: LedgerView) -> Seq<u8> {
    ledger.owner + le_bytes(ledger.ticket_total as nat, 8) + le_bytes(ledger.tickets.len(), 4)
        + tickets_bytes(ledger.tickets)
}

/// The entry that the 25 bytes at `at` hold.
pub open spec fn ticket_at(data: Seq<u8>, at: int) -> Ticket {
    Ticket {
        number_of_tickets: le_value(data.subrange(at, at + 8)) as u64,
        deposit_time: le_i64_value(data.subrange(at + 8, at + 16)) as i64,
        vesting_period: le_i64_value(data.subrange(at + 16, at + 24)) as i64,
        claimed: data[at + 24] == 1,
    }
}

/// The number of entries that a ledger's header announces.
pub open spec fn stored_count(data: Seq<u8>) -> nat {
    le_value(data.subrange(40, 44))
}

/// The first `count` entries that a ledger's bytes hold.
pub open spec fn stored_tickets(data: Seq<u8>, count: nat) -> Seq<Ticket> {
    Seq::new(count, |i: int| ticket_at(data, LEDGER_HEADER_SIZE as int + TICKET_SIZE as int * i))
}

/// The ledger that a record's bytes hold.
pub open spec fn stored_ledger(data: Seq<u8>) -> LedgerView {
    LedgerView {
        owner: data.subrange(0, 32),
        tickets: stored_tickets(data, stored_count(data)),
        ticket_total: le_value(data.subrange(32, 40)) as u64,
    }
}

/// Whether a record's bytes are a ledger: a header, exactly as many entries as
/// the header announces, each flag byte 0 or 1, and the invariant met.
pub open spec fn holds_ledger(data: Seq<u8>) -> bool {
    &&& data.len() >= LEDGER_HEADER_SIZE
    &&& data.len() == ledger_size(stored_count(data))
    &&& forall|i: int|
        0 <= i < stored_count(data) ==> #[trigger] data[LEDGER_HEADER_SIZE as int
            + TICKET_SIZE as int * i + 24] <= 1
    &&& stored_ledger(data).wf()
}

/// An entry takes 25 bytes, and what they hold is the entry.
pub proof fn lemma_ticket_bytes(ticket: Ticket)
    ensures
        ticket_bytes(ticket).len() == TICKET_SIZE,
        ticket_at(ticket_bytes(ticket), 0) == ticket,
        ticket_bytes(ticket)[24] <= 1,
{
    let units = le_bytes(ticket.number_of_tickets as nat, 8);
    let since = le_i64_bytes(ticket.deposit_time as int);
    let vesting = le_i64_bytes(ticket.vesting_period as int);
    let all = ticket_bytes(ticket);
    lemma_radix_values();
    lemma_le_bytes_len(ticket.number_of_tickets as nat, 8);
    lemma_le_value_of_bytes(ticket.number_of_tickets as nat, 8);
    lemma_le_i64_value_of_bytes(ticket.deposit_time as int);
    lemma_le_i64_value_of_bytes(ticket.vesting_period as int);
    assert(all.subrange(0, 8) =~= units);
    assert(all.subrange(8, 16) =~= since);
    assert(all.subrange(16, 24) =~= vesting);
}

/// What the bytes at `at` hold depends on the 25 bytes from `at` on and no
/// others.
pub proof fn lemma_ticket_at_window(data: Seq<u8>, at: int)
    requires
        0 <= at,
        at + TICKET_SIZE <= data.len(),
    ensures
        ticket_at(data, at) == ticket_at(data.subrange(at, at + TICKET_SIZE as int), 0),
{
    let window = data.subrange(at, at + TICKET_SIZE as int);
    assert(window.subrange(0, 8) =~= data.subrange(at, at + 8));
    assert(window.subrange(8, 16) =~= data.subrange(at + 8, at + 16));
    assert(window.subrange(16, 24) =~= data.subrange(at + 16, at + 24));
}

/// A run of entries takes 25 bytes for each, and entry `i` stands in the 25
/// bytes from `25 * i` on.
pub proof fn lemma_tickets_bytes(tickets: Seq<Ticket>)
    ensures
        tickets_bytes(tickets).len() == TICKET_SIZE * tickets.len(),
        forall|i: int|
            0 <= i < tickets.len() ==> #[trigger] tickets_bytes(tickets).subrange(
                TICKET_SIZE as int * i,
                TICKET_SIZE as int * i + TICKET_SIZE as int,
            ) == ticket_bytes(tickets[i]),
    decreases tickets.len(),
{
    if tickets.len() > 0 {
        let front = tickets.drop_last();
        lemma_tickets_bytes(front);
        lemma_ticket_bytes(tickets.last());
        let all = tickets_bytes(tickets);
        assert forall|i: int| 0 <= i < tickets.len() implies #[trigger] all.subrange(
            TICKET_SIZE as int * i,
            TICKET_SIZE as int * i + TICKET_SIZE as int,
        ) == ticket_bytes(tickets[i]) by {
            if i < front.len() {
                assert(all.subrange(
                    TICKET_SIZE as int * i,
                    TICKET_SIZE as int * i + TICKET_SIZE as int,
                ) =~= tickets_bytes(front).subrange(
                    TICKET_SIZE as int * i,
                    TICKET_SIZE as int * i + TICKET_SIZE as int,
                ));
                assert(front[i] == tickets[i]);
            } else {
                assert(all.subrange(
                    TICKET_SIZE as int * i,
                    TICKET_SIZE as int * i + TICKET_SIZE as int,
                ) =~= ticket_bytes(tickets.last()));
            }
        }
    }
}

/// What is written can be read: the bytes of a ledger that meets the invariant
/// are a ledger, and the ledger they hold is the one written.
pub proof fn lemma_stored_ledger_of_bytes(ledger: LedgerView)
    requires
        ledger.wf(),
    ensures
        ledger_bytes(ledger).len() == ledger_size(ledger.tickets.len()),
        holds_ledger(ledger_bytes(ledger)),
        stored_ledger(ledger_bytes(ledger)) == ledger,
{
    let data = ledger_bytes(ledger);
    let count = ledger.tickets.len();
    let entries = tickets_bytes(ledger.tickets);
    lemma_radix_values();
    lemma_le_bytes_len(ledger.ticket_total as nat, 8);
    lemma_le_bytes_len(count, 4);
    lemma_le_value_of_bytes(ledger.ticket_total as nat, 8);
    lemma_le_value_of_bytes(count, 4);
    lemma_tickets_bytes(ledger.tickets);
    assert(data.subrange(0, 32) =~= ledger.owner);
    assert(data.subrange(32, 40) =~= le_bytes(ledger.ticket_total as nat, 8));
    assert(data.subrange(40, 44) =~= le_bytes(count, 4));
    assert(stored_count(data) == count);
    assert forall|i: int| 0 <= i < count implies ticket_at(
        data,
        LEDGER_HEADER_SIZE as int + TICKET_SIZE as int * i,
    ) == ledger.tickets[i] && #[trigger] data[LEDGER_HEADER_SIZE as int + TICKET_SIZE as int * i
        + 24] <= 1 by {
        let at = LEDGER_HEADER_SIZE as int + TICKET_SIZE as int * i;
        lemma_ticket_at_window(data, at);
        assert(data.subrange(at, at + TICKET_SIZE as int) =~= entries.subrange(
            TICKET_SIZE as int * i,
            TICKET_SIZE as int * i + TICKET_SIZE as int,
        ));
        lemma_ticket_bytes(ledger.tickets[i]);
        assert(data[at + 24] == ticket_bytes(ledger.tickets[i])[24]);
    }
    assert(stored_tickets(data, count) =~= ledger.tickets);
}

/// What is read can be written: the 25 bytes of the entry that stands at `at`
/// are the 25 bytes at `at`, where the flag byte is 0 or 1.
pub proof fn lemma_ticket_bytes_of_stored(data: Seq<u8>, at: int)
    requires
        0 <= at,
        at + TICKET_SIZE <= data.len(),
        data[at + 24] <= 1,
    ensures
        ticket_bytes(ticket_at(data, at)) == data.subrange(at, at + TICKET_SIZE as int),
{
    let units = data.subrange(at, at + 8);
    let since = data.subrange(at + 8, at + 16);
    let vesting = data.subrange(at + 16, at + 24);
    lemma_radix_values();
    lemma_le_value_bound(units);
    lemma_le_bytes_of_value(units);
    lemma_le_i64_bytes_of_value(since);
    lemma_le_i64_bytes_of_value(vesting);
    assert(ticket_bytes(ticket_at(data, at)) =~= units + since + vesting + seq![data[at + 24]]);
    assert(units + since + vesting + seq![data[at + 24]] =~= data.subrange(
        at,
        at + TICKET_SIZE as int,
    ));
}

/// The bytes of the first `count` entries that a record holds are the bytes
/// that follow its header, where every flag byte is 0 or 1.
pub proof fn lemma_tickets_bytes_of_stored(data: Seq<u8>, count: nat)
    requires
        ledger_size(count) <= data.len(),
        forall|i: int|
            0 <= i < count ==> #[trigger] data[LEDGER_HEADER_SIZE as int + TICKET_SIZE as int * i
                + 24] <= 1,
    ensures
        tickets_bytes(stored_tickets(data, count)) == data.subrange(
            LEDGER_HEADER_SIZE as int,
            ledger_size(count) as int,
        ),
    decreases count,
{
    let entries = stored_tickets(data, count);
    if count > 0 {
        let fewer = (count - 1) as nat;
        let at = LEDGER_HEADER_SIZE as int + TICKET_SIZE as int * fewer;
        lemma_tickets_bytes_of_stored(data, fewer);
        assert(entries.drop_last() =~= stored_tickets(data, fewer));
        assert(data[LEDGER_HEADER_SIZE as int + TICKET_SIZE as int * fewer + 24] <= 1);
        lemma_ticket_bytes_of_stored(data, at);
        assert(data.subrange(LEDGER_HEADER_SIZE as int, at) + data.subrange(
            at,
            at + TICKET_SIZE as int,
        ) =~= data.subrange(LEDGER_HEADER_SIZE as int, ledger_size(count) as int));
    } else {
        assert(data.subrange(LEDGER_HEADER_SIZE as int, ledger_size(count) as int)
            =~= Seq::<u8>::empty());
    }
}

/// What is read can be written: the bytes of the ledger that a record holds
/// are the record's bytes. With `lemma_stored_ledger_of_bytes`, every ledger
/// has one stored form and every stored form one ledger.
pub proof fn lemma_bytes_of_stored_ledger(data: Seq<u8>)
    requires
        holds_ledger(data),
    ensures
        ledger_bytes(stored_ledger(data)) == data,
{
    let count = stored_count(data);
    lemma_radix_values();
    lemma_le_value_bound(data.subrange(32, 40));
    lemma_le_bytes_of_value(data.subrange(32, 40));
    lemma_le_bytes_of_value(data.subrange(40, 44));
    lemma_tickets_bytes_of_stored(data, count);
    assert(ledger_bytes(stored_ledger(data)) =~= data.subrange(0, 32) + data.subrange(32, 40)
        + data.subrange(40, 44) + data.subrange(
        LEDGER_HEADER_SIZE as int,
        ledger_size(count) as int,
    ));
    assert(data.subrange(0, 32) + data.subrange(32, 40) + data.subrange(40, 44) + data.subrange(
        LEDGER_HEADER_SIZE as int,
        ledger_size(count) as int,
    ) =~= data);
}

/// The size of a ledger with `entries` entries.
pub fn ledger_size_of(entries: usize) -> (size: usize)
    requires
        entries <= LEDGER_ENTRY_LIMIT,
    ensures
        size == ledger_size(entries as nat),
{
    LEDGER_HEADER_SIZE + TICKET_SIZE * entries
}

/// Reads the entry at `at`, and whether its flag byte is 0 or 1.
fn read_ticket(data: &[u8], at: usize) -> (read: (Ticket, bool))
    requires
        at + TICKET_SIZE <= data.len(),
    ensures
        read.0 == ticket_at(data@, at as int),
        read.1 == (data@[at + 24] <= 1),
{
    let number_of_tickets: u64 = read_le(data, at, 8);
    let deposit_time: i64 = read_i64(data, at + 8);
    let vesting_period: i64 = read_i64(data, at + 16);
    let flag: u8 = data[at + 24];
    proof {
        lemma_radix_values();
        lemma_le_value_bound(data@.subrange(at as int, at + 8));
        lemma_le_i64_bytes_of_value(data@.subrange(at + 8, at + 16));
        lemma_le_i64_bytes_of_value(data@.subrange(at + 16, at + 24));
    }
    (Ticket { number_of_tickets, deposit_time, vesting_period, claimed: flag == 1 }, flag <= 1)
}

impl TicketAccount {
    /// The bytes to store this ledger as.
    pub fn to_bytes(&self) -> (data: Vec<u8>)
        ensures
            data@ == ledger_bytes(self@),
            self@.wf() ==> {
                &&& data.len() == ledger_size(self.tickets.len() as nat)
                &&& holds_ledger(data@)
                &&& stored_ledger(data@) == self@
            },
    {
        let mut data: Vec<u8> = Vec::new();
        write_bytes(&mut data, self.owner.bytes.as_slice());
        write_le(&mut data, self.ticket_total, 8);
        write_le(&mut data, self.tickets.len() as u64, 4);
        let ghost header = data@;
        assert(header =~= self@.owner + le_bytes(self.ticket_total as nat, 8) + le_bytes(
            self.tickets.len() as nat,
            4,
        ));
        let mut i: usize = 0;
        while i < self.tickets.len()
            invariant
                i <= self.tickets.len(),
                data@ == header + tickets_bytes(self.tickets@.take(i as int)),
            decreases self.tickets.len() - i,
        {
            let ticket: Ticket = self.tickets[i];
            let ghost before = data@;
            write_le(&mut data, ticket.number_of_tickets, 8);
            write_i64(&mut data, ticket.deposit_time);
            write_i64(&mut data, ticket.vesting_period);
            data.push(if ticket.claimed { 1u8 } else { 0u8 });
            proof {
                let done = self.tickets@.take(i as int);
                let next = self.tickets@.take(i + 1);
                assert(next.drop_last() =~= done);
                assert(next.last() == ticket);
                assert(data@ =~= before + ticket_bytes(ticket));
                assert(data@ =~= header + tickets_bytes(next));
            }
            i += 1;
        }
        proof {
            assert(self.tickets@.take(i as int) =~= self.tickets@);
            if self@.wf() {
                lemma_stored_ledger_of_bytes(self@);
            }
        }
        data
    }

    /// The ledger that `data` holds, or `None` where `data` is no ledger.
    pub fn from_bytes(data: &[u8]) -> (ledger: Option<TicketAccount>)
        ensures
            match ledger {
                Some(found) => holds_ledger(data@) && found@ == stored_ledger(data@),
                None => !holds_ledger(data@),
            },
    {
        if data.len() < LEDGER_HEADER_SIZE {
            return None;
        }
        let count: u64 = read_le(data, 40, 4);
        proof {
            lemma_radix_values();
            lemma_le_value_bound(data@.subrange(40, 44));
            lemma_le_value_bound(data@.subrange(32, 40));
        }
        if count > LEDGER_ENTRY_LIMIT as u64 {
            return None;
        }
        let entries: usize = count as usize;
        if data.len() != LEDGER_HEADER_SIZE + TICKET_SIZE * entries {
            return None;
        }
        let owner = Address { bytes: read_block(data, 0) };
        let ticket_total: u64 = read_le(data, 32, 8);
        let mut tickets: Vec<Ticket> = Vec::new();
        let mut sum: u64 = 0;
        let mut i: usize = 0;
        while i < entries
            invariant
                i <= entries <= LEDGER_ENTRY_LIMIT,
                data.len() == LEDGER_HEADER_SIZE + TICKET_SIZE * entries,
                entries == stored_count(data@),
                ticket_total == stored_ledger(data@).ticket_total,
                tickets@ == stored_tickets(data@, i as nat),
                sum == count_sum(tickets@),
                sum <= ticket_total,
                forall|j: int| 0 <= j < i ==> tickets@[j].number_of_tickets > 0,
                forall|j: int|
                    0 <= j < i ==> #[trigger] data@[LEDGER_HEADER_SIZE as int + TICKET_SIZE as int
                        * j + 24] <= 1,
            decreases entries - i,
        {
            let at: usize = LEDGER_HEADER_SIZE + TICKET_SIZE * i;
            let (ticket, flag_ok) = read_ticket(data, at);
            let ghost all = stored_tickets(data@, entries as nat);
            proof {
                assert(stored_tickets(data@, (i + 1) as nat) =~= tickets@.push(ticket));
                lemma_count_sum_push(tickets@, ticket);
                assert(all.take(i + 1) =~= tickets@.push(ticket));
                assert(all[i as int] == ticket);
            }
            if !flag_ok {
                return None;
            }
            if ticket.number_of_tickets == 0 {
                assert(stored_ledger(data@).tickets[i as int].number_of_tickets == 0);
                return None;
            }
            if ticket.number_of_tickets > ticket_total - sum {
                proof {
                    lemma_count_sum_take(all, i + 1);
                }
                return None;
            }
            sum = sum + ticket.number_of_tickets;
            tickets.push(ticket);
            i += 1;
        }
        if sum != ticket_total {
            return None;
        }
        Some(TicketAccount { owner, tickets, ticket_total })
    }
}

/// The units of the first entries of a run are among the units of the run.
pub proof fn lemma_count_sum_take(tickets: Seq<Ticket>, upto: int)
    requires
        0 <= upto <= tickets.len(),
    ensures
        count_sum(tickets.take(upto)) <= count_sum(tickets),
    decreases tickets.len(),
{
    if upto < tickets.len() {
        lemma_count_sum_take(tickets.drop_last(), upto);
        assert(tickets.drop_last().take(upto) =~= tickets.take(upto));
    } else {
        assert(tickets.take(upto) =~= tickets);
    }
}

} // verus!
