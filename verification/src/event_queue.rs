//! The queue of the usage events that are still to be written to disk, a
//! `crossbeam_queue::SegQueue`.

use vstd::prelude::*;
use vstd::string::*;

verus! {

/// What one request used.
#[derive(Debug, Clone, Copy, PartialEq, Eq, Structural)]
pub struct TokenUsageDelta {
    pub input_tokens: u64,
    pub output_tokens: u64,
    pub cache_read_tokens: u64,
    pub cache_write_tokens: u64,
    pub total_tokens: u64,
}

/// What one request used, and when.
#[derive(Debug)]
pub struct TokenUsageEvent {
    pub id: u64,
    pub date: String,
    pub updated_at: String,
    pub delta: TokenUsageDelta,
}

/// What a usage event says.
#[verifier::ext_equal]
pub struct UsageEventView {
    pub id: u64,
    pub date: Seq<char>,
    pub updated_at: Seq<char>,
    pub delta: TokenUsageDelta,
}

impl View for TokenUsageEvent {
    type V = UsageEventView;

    open spec fn view(&self) -> UsageEventView {
        UsageEventView {
            id: self.id,
            date: self.date@,
            updated_at: self.updated_at@,
            delta: self.delta,
        }
    }
}

/// What usage events say.
pub open spec fn event_views(events: Seq<TokenUsageEvent>) -> Seq<UsageEventView> {
    Seq::new(events.len(), |i: int| events[i]@)
}

/// `crossbeam_queue::SegQueue`, a queue.
#[verifier::external_type_specification]
#[verifier::external_body]
#[verifier::reject_recursive_types(T)]
pub struct ExSegQueue<T>(crossbeam_queue::SegQueue<T>);

/// A queue of usage events.
pub type EventQueue = crossbeam_queue::SegQueue<TokenUsageEvent>;

/// The events that a queue holds, the one that leaves first coming first.
pub uninterp spec fn events_in(queue: EventQueue) -> Seq<UsageEventView>;

/// `crossbeam_queue::SegQueue::new` makes an empty queue.
#[verifier::external_body]
pub(crate) fn new_queue() -> (queue: EventQueue)
    ensures
        events_in(queue).len() == 0,
{
    crossbeam_queue::SegQueue::new()
}

/// `crossbeam_queue::SegQueue::push` puts an event behind all others.
#[verifier::external_body]
pub(crate) fn push_event(queue: &mut EventQueue, event: TokenUsageEvent)
    ensures
        events_in(*final(queue)) == events_in(*old(queue)).push(event@),
{
    queue.push(event)
}

/// `crossbeam_queue::SegQueue::pop` takes the first event out, where there is one.
#[verifier::external_body]
pub(crate) fn pop_event(queue: &mut EventQueue) -> (event: Option<TokenUsageEvent>)
    ensures
        match event {
            Some(e) => events_in(*old(queue)).len() > 0 && e@ == events_in(*old(queue))[0]
                && events_in(*final(queue)) == events_in(*old(queue)).skip(1),
            None => events_in(*old(queue)).len() == 0 && events_in(*final(queue)) == events_in(
                *old(queue),
            ),
        },
{
    queue.pop()
}

} // verus!
