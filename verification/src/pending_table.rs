//! The table of the jobs that wait for the agent, a `dashmap::DashMap` from identifiers of
//! jobs to tickets.

use vstd::prelude::*;
use vstd::string::*;

use crate::text;

verus! {

/// A table of tickets.
pub type PendingTable = dashmap::DashMap<String, u64, std::hash::RandomState>;

/// Tickets by the identifiers of their jobs.
pub type Tickets = Map<Seq<char>, u64>;

/// No tickets.
pub open spec fn no_tickets() -> Tickets {
    Map::empty()
}

/// The tickets that a table holds.
pub uninterp spec fn tickets_in(table: PendingTable) -> Tickets;

/// `dashmap::DashMap::new` makes an empty table.
#[verifier::external_body]
pub(crate) fn new_table() -> (table: PendingTable)
    ensures
        tickets_in(table) == no_tickets(),
{
    dashmap::DashMap::new()
}

/// `dashmap::DashMap::insert` keeps a ticket under an identifier, in the place of the one
/// that was there.
#[verifier::external_body]
pub(crate) fn put_ticket(table: &mut PendingTable, job_id: String, ticket: u64)
    ensures
        tickets_in(*final(table)) == tickets_in(*old(table)).insert(job_id@, ticket),
{
    table.insert(job_id, ticket);
}

/// `dashmap::DashMap::remove` takes the ticket under an identifier out, where there is one.
#[verifier::external_body]
pub(crate) fn take_ticket(table: &mut PendingTable, job_id: &str) -> (ticket: Option<u64>)
    ensures
        tickets_in(*final(table)) == tickets_in(*old(table)).remove(job_id@),
        match ticket {
            Some(t) => tickets_in(*old(table)).dom().contains(job_id@) && t == tickets_in(
                *old(table),
            )[job_id@],
            None => !tickets_in(*old(table)).dom().contains(job_id@),
        },
{
    table.remove(job_id).map(|(_, ticket)| ticket)
}

/// `dashmap::DashMap::iter` gives all identifiers, each of them once, in no particular
/// order.
#[verifier::external_body]
pub(crate) fn list_ids(table: &PendingTable) -> (ids: Vec<String>)
    ensures
        text::texts(ids@).no_duplicates(),
        text::texts(ids@).to_set() == tickets_in(*table).dom(),
{
    table.iter().map(|entry| entry.key().clone()).collect()
}

} // verus!
