use vstd::prelude::*;
use crate::history::{history_of, record_spec, PriceHistory, WINDOW};

verus! {

/// A decoded trade; `price_bits` is the bit pattern of the price in SOL.
pub struct TradeEvent {
    pub block_time: String,
    pub token_address: String,
    pub price_bits: u64,
}

/// What the inbound feed delivered.
pub enum FeedEvent {
    /// A record that decoded to a trade.
    Trade(TradeEvent),
    /// A record whose payload was not a well-formed trade.
    Malformed,
    /// The feed failed to deliver a record.
    ReceiveFailed,
}

/// The input of the indicator for one processed trade.
pub struct Emission {
    pub token: String,
    pub price_bits: u64,
    pub block_time: String,
    /// The token's history after the trade, oldest first.
    pub window: Vec<u64>,
}

/// What the loop does after one event.
pub enum Action {
    /// Compute the indicator over the window, then broadcast and republish it.
    Emit(Emission),
    /// Log the rejected record and go on with the next one.
    ReportMalformed,
    /// Log the receive failure and go on with the next one.
    ReportReceiveFailure,
}

/// The store after one event: only a trade changes it.
pub open spec fn step_spec(m: Map<Seq<char>, Seq<u64>>, event: FeedEvent) -> Map<
    Seq<char>,
    Seq<u64>,
> {
    match event {
        FeedEvent::Trade(t) => record_spec(m, t.token_address@, t.price_bits),
        _ => m,
    }
}

/// The store after a sequence of events, in order.
pub open spec fn run_spec(m: Map<Seq<char>, Seq<u64>>, events: Seq<FeedEvent>) -> Map<
    Seq<char>,
    Seq<u64>,
>
    decreases events.len(),
{
    if events.len() == 0 {
        m
    } else {
        step_spec(run_spec(m, events.drop_last()), events.last())
    }
}

/// The trades among `events`, in order.
pub open spec fn trades_only(events: Seq<FeedEvent>) -> Seq<FeedEvent>
    decreases events.len(),
{
    if events.len() == 0 {
        events
    } else if events.last() is Trade {
        trades_only(events.drop_last()).push(events.last())
    } else {
        trades_only(events.drop_last())
    }
}

/// Handles one event of the inbound feed. A trade is recorded and its window
/// handed out for the indicator; anything else leaves the store untouched.
pub fn step(history: &mut PriceHistory, event: FeedEvent) -> (action: Action)
    requires
        old(history).wf(),
    ensures
        final(history).wf(),
        final(history)@ == step_spec(old(history)@, event),
        match event {
            FeedEvent::Trade(t) => match action {
                Action::Emit(e) => {
                    &&& e.token@ == t.token_address@
                    &&& e.price_bits == t.price_bits
                    &&& e.block_time@ == t.block_time@
                    &&& e.window@ == history_of(final(history)@, t.token_address@)
                    &&& e.window@.len() <= WINDOW
                },
                _ => false,
            },
            FeedEvent::Malformed => action is ReportMalformed,
            FeedEvent::ReceiveFailed => action is ReportReceiveFailure,
        },
{
    match event {
        FeedEvent::Trade(t) => {
            let window = history.record(&t.token_address, t.price_bits);
            Action::Emit(
                Emission {
                    token: t.token_address,
                    price_bits: t.price_bits,
                    block_time: t.block_time,
                    window,
                },
            )
        },
        FeedEvent::Malformed => Action::ReportMalformed,
        FeedEvent::ReceiveFailed => Action::ReportReceiveFailure,
    }
}

/// Records that are rejected, and receive failures, change nothing: a run of
/// events leaves the store exactly as the trades among them alone would.
pub proof fn lemma_only_trades_change_state(m: Map<Seq<char>, Seq<u64>>, events: Seq<FeedEvent>)
    ensures
        run_spec(m, events) == run_spec(m, trades_only(events)),
    decreases events.len(),
{
    if events.len() > 0 {
        let init = events.drop_last();
        lemma_only_trades_change_state(m, init);
        if events.last() is Trade {
            let t = trades_only(init).push(events.last());
            assert(t.drop_last() =~= trades_only(init));
        }
    }
}

} // verus!
