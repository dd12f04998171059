//! What to do about a closed candle: from a signal to an order, or to nothing.
//!
//! The decisions are a state machine. Whoever runs it does the outside work that it asks for (the
//! audit, the look-ups, the market, the balance, the order) and hands back how that went, until
//! it asks to finish.

use vstd::prelude::*;
use crate::binary64::Binary64;
use crate::candle::Candle;
use crate::clock;
use crate::exact;
use crate::microstructure::MicrostructureSnapshot;
use crate::strategy::{MicrostructureDecisionSummary, Prediction, Signal, Strategy};

verus! {

/// How a closed candle ended.
#[derive(Clone, Debug, PartialEq, Eq)]
pub enum ClosedCandleAction {
    NoSignal,
    AuditFailed,
    Filtered,
    DuplicateSignal,
    MarketResolveFailed,
    OrderFailed,
    OrderPlaced { trade_id: String, signal_key: String },
}

/// How a closed candle ended, without the names of what was placed.
#[derive(Clone, Copy, Debug, PartialEq, Eq, Structural)]
pub enum Outcome {
    NoSignal,
    AuditFailed,
    Filtered,
    DuplicateSignal,
    MarketResolveFailed,
    OrderFailed,
    OrderPlaced,
}

/// What the calendar and the configuration say, whatever the strategy makes of the candle.
#[derive(Clone, Copy, Debug)]
pub struct Terms {
    /// Whether the candle closed on an excluded day or hour.
    pub filtered: bool,
    /// Whether orders are only pretended.
    pub dry_run: bool,
    /// The share of the balance to trade, in percent; none where it is not positive.
    pub trade_amount_pct: Binary64,
}

/// What is settled before the first outside work.
#[derive(Clone, Copy, Debug)]
pub struct Plan {
    /// Whether the strategy gave a signal.
    pub signal: bool,
    pub terms: Terms,
}

/// Where the machine stands: which outside work it waits for.
#[derive(Clone, Copy, Debug, PartialEq, Eq, Structural)]
pub enum Stage {
    /// The audit record made from the strategy's summary of its decision.
    Document,
    /// The durable writing of that record.
    Audit,
    /// Whether the same signal is being followed already.
    Active,
    /// Whether the same signal was traded before.
    History,
    /// The market to trade on.
    Market,
    /// The balance to trade from.
    Balance,
    /// The order.
    Order,
    /// The record of the order, and its following.
    Record,
    /// Nothing more.
    Done,
}

/// What whoever runs the machine has to do next.
#[derive(Clone, Copy, Debug)]
pub enum Request {
    Document,
    WriteAudit,
    AskActive,
    AskHistory,
    ResolveMarket,
    ReadBalance,
    /// Make `base` the base amount where there is one, then order for the current amount.
    PlaceOrder { base: Option<Binary64> },
    RecordOrder,
    /// Check open positions against the candle where `validate`, look up the next market ahead of
    /// time where `prefetch`, and end with `outcome`.
    Finish { outcome: Outcome, validate: bool, prefetch: bool },
}

/// How the outside work went.
#[derive(Clone, Copy, Debug)]
pub enum Event {
    /// Whether the record could be made.
    Document(bool),
    /// Whether the record was written.
    Audit(bool),
    /// Whether the signal is being followed already.
    Active(bool),
    /// Whether the signal was traded before; `None` where that could not be found out.
    History(Option<bool>),
    /// Whether the market was found.
    Market(bool),
    /// The balance; `None` where it could not be read.
    Balance(Option<Binary64>),
    /// Whether the order was accepted.
    Order(bool),
    /// The order is on record.
    Recorded,
}

/// `pct` percent of a balance, rounded down to whole cents, and at least one.
pub open spec fn amount_of(balance: Binary64, pct: Binary64) -> Binary64 {
    let hundred = Binary64::count(100);
    balance.times(pct).over(hundred).times(hundred).floor().over(hundred).max(Binary64::one())
}

pub fn amount_from_balance_pct(balance: Binary64, pct: Binary64) -> (r: Binary64)
    ensures
        r == amount_of(balance, pct),
{
    let hundred: Binary64 = Binary64::count(100);
    let amount: Binary64 = balance.times(pct).over(hundred).times(hundred).floor().over(hundred);
    amount.max(Binary64::one())
}

/// Whether the amount of a trade is taken from a balance read just before it.
pub open spec fn reads_balance_of(plan: Plan) -> bool {
    !plan.terms.trade_amount_pct.at_most(Binary64::zero()) && !plan.terms.dry_run
}

fn reads_balance(plan: &Plan) -> (r: bool)
    ensures
        r == reads_balance_of(*plan),
{
    !plan.terms.trade_amount_pct.at_most(Binary64::zero()) && !plan.terms.dry_run
}

/// The base amount that a balance gives; `None` keeps the one there is.
pub open spec fn base_of(plan: Plan, balance: Option<Binary64>) -> Option<Binary64> {
    match balance {
        Some(balance) => Some(amount_of(balance, plan.terms.trade_amount_pct)),
        None => None,
    }
}

/// The end of a candle, and whether to validate and to prefetch on the way.
pub open spec fn end_of(outcome: Outcome) -> (Stage, Request) {
    let validate = outcome != Outcome::AuditFailed;
    let prefetch = outcome == Outcome::NoSignal || outcome == Outcome::Filtered || outcome
        == Outcome::OrderFailed || outcome == Outcome::OrderPlaced;
    (Stage::Done, Request::Finish { outcome, validate, prefetch })
}

fn end(outcome: Outcome) -> (r: (Stage, Request))
    ensures
        r == end_of(outcome),
{
    let validate: bool = outcome != Outcome::AuditFailed;
    let prefetch: bool = outcome == Outcome::NoSignal || outcome == Outcome::Filtered || outcome
        == Outcome::OrderFailed || outcome == Outcome::OrderPlaced;
    (Stage::Done, Request::Finish { outcome, validate, prefetch })
}

/// Where a candle begins once there is nothing to audit, or the audit is written.
pub open spec fn start_of(plan: Plan) -> (Stage, Request) {
    if !plan.signal {
        end_of(Outcome::NoSignal)
    } else if plan.terms.filtered {
        end_of(Outcome::Filtered)
    } else {
        (Stage::Active, Request::AskActive)
    }
}

/// Where a candle begins once there is nothing to audit, or the audit is written.
pub fn start(plan: &Plan) -> (r: (Stage, Request))
    ensures
        r == start_of(*plan),
{
    if !plan.signal {
        end(Outcome::NoSignal)
    } else if plan.terms.filtered {
        end(Outcome::Filtered)
    } else {
        (Stage::Active, Request::AskActive)
    }
}

/// Where a snapshot begins: with its audit, whether there is a signal or not. Without a summary
/// there is nothing to audit, and nothing is done.
pub open spec fn audit_start_of(summarized: bool) -> (Stage, Request) {
    if summarized {
        (Stage::Document, Request::Document)
    } else {
        end_of(Outcome::AuditFailed)
    }
}

/// Where a snapshot begins.
pub fn audit_start(summarized: bool) -> (r: (Stage, Request))
    ensures
        r == audit_start_of(summarized),
{
    if summarized {
        (Stage::Document, Request::Document)
    } else {
        end(Outcome::AuditFailed)
    }
}

/// Whether a signal, if there is one, names a strategy and a moment.
pub open spec fn attributed(signal: Option<Signal>, name: Seq<char>, close_time_ms: i64) -> bool {
    signal matches Some(s) ==> s.strategy_name@ == name && s.signal_candle_close_time_ms
        == close_time_ms
}

/// Lets a strategy see a closed candle, and says where its answer begins.
pub fn process_closed_candle<S: Strategy + ?Sized>(
    strategy: &mut S,
    candle: &Candle,
    terms: Terms,
) -> (r: (Option<Signal>, Plan, (Stage, Request)))
    requires
        old(strategy).well_formed(),
    ensures
        final(strategy).well_formed(),
        final(strategy).title() == old(strategy).title(),
        attributed(r.0, old(strategy).title(), candle.close_time_ms),
        old(strategy).answers(Seq::empty(), *candle, r.0),
        forall|first: Seq<Candle>, c: Candle, s: Option<Signal>| #[trigger]
            final(strategy).answers(first, c, s) == old(strategy).answers(
                seq![*candle] + first,
                c,
                s,
            ),
        r.1 == (Plan { signal: r.0 is Some, terms }),
        r.2 == start_of(r.1),
{
    let signal: Option<Signal> = strategy.on_closed_candle(candle);
    let plan: Plan = Plan { signal: signal.is_some(), terms };
    (signal, plan, start(&plan))
}

/// Lets a strategy see a snapshot, and says where its answer begins: with the audit of the summary
/// that the strategy keeps of it.
pub fn process_microstructure_snapshot<S: Strategy + ?Sized>(
    strategy: &mut S,
    snapshot: &MicrostructureSnapshot,
    terms: Terms,
) -> (r: (Option<Signal>, Option<MicrostructureDecisionSummary>, Plan, (Stage, Request)))
    requires
        old(strategy).well_formed(),
    ensures
        final(strategy).well_formed(),
        final(strategy).title() == old(strategy).title(),
        attributed(r.0, old(strategy).title(), snapshot.candle.close_time_ms),
        old(strategy).answers_snapshot(*snapshot, r.0),
        final(strategy).has_considered(*snapshot),
        final(strategy).summary_is(r.1),
        forall|first: Seq<Candle>, c: Candle, s: Option<Signal>| #[trigger]
            final(strategy).answers(first, c, s) == old(strategy).answers(first, c, s),
        !old(strategy).reads_snapshots() ==> r.0 is None && r.1 is None && &*final(strategy)
            == &*old(strategy),
        r.2 == (Plan { signal: r.0 is Some, terms }),
        r.3 == audit_start_of(r.1 is Some),
{
    let signal: Option<Signal> = strategy.on_microstructure_snapshot(snapshot);
    let summary: Option<MicrostructureDecisionSummary> =
        strategy.last_microstructure_decision_summary();
    let plan: Plan = Plan { signal: signal.is_some(), terms };
    let step: (Stage, Request) = audit_start(summary.is_some());
    (signal, summary, plan, step)
}

/// Where an answer leads; `None` where it does not answer what was asked.
pub open spec fn step_of(plan: Plan, stage: Stage, event: Event) -> Option<(Stage, Request)> {
    match (stage, event) {
        (Stage::Document, Event::Document(made)) => Some(
            if made {
                (Stage::Audit, Request::WriteAudit)
            } else {
                end_of(Outcome::AuditFailed)
            },
        ),
        (Stage::Audit, Event::Audit(written)) => Some(
            if written {
                start_of(plan)
            } else {
                end_of(Outcome::AuditFailed)
            },
        ),
        (Stage::Active, Event::Active(active)) => Some(
            if active {
                end_of(Outcome::DuplicateSignal)
            } else {
                (Stage::History, Request::AskHistory)
            },
        ),
        (Stage::History, Event::History(traded)) => Some(
            if traded == Some(true) {
                end_of(Outcome::DuplicateSignal)
            } else {
                (Stage::Market, Request::ResolveMarket)
            },
        ),
        (Stage::Market, Event::Market(found)) => Some(
            if !found {
                end_of(Outcome::MarketResolveFailed)
            } else if reads_balance_of(plan) {
                (Stage::Balance, Request::ReadBalance)
            } else {
                (Stage::Order, Request::PlaceOrder { base: None })
            },
        ),
        (Stage::Balance, Event::Balance(balance)) => Some(
            (Stage::Order, Request::PlaceOrder { base: base_of(plan, balance) }),
        ),
        (Stage::Order, Event::Order(accepted)) => Some(
            if accepted {
                (Stage::Record, Request::RecordOrder)
            } else {
                end_of(Outcome::OrderFailed)
            },
        ),
        (Stage::Record, Event::Recorded) => Some(end_of(Outcome::OrderPlaced)),
        _ => None,
    }
}

/// Takes the answer to what was asked and says what to do next.
pub fn process_signal_for_candle(plan: &Plan, stage: Stage, event: Event) -> (r: Option<
    (Stage, Request),
>)
    ensures
        r == step_of(*plan, stage, event),
{
    match (stage, event) {
        (Stage::Document, Event::Document(made)) => Some(
            if made {
                (Stage::Audit, Request::WriteAudit)
            } else {
                end(Outcome::AuditFailed)
            },
        ),
        (Stage::Audit, Event::Audit(written)) => Some(
            if written {
                start(plan)
            } else {
                end(Outcome::AuditFailed)
            },
        ),
        (Stage::Active, Event::Active(active)) => Some(
            if active {
                end(Outcome::DuplicateSignal)
            } else {
                (Stage::History, Request::AskHistory)
            },
        ),
        (Stage::History, Event::History(traded)) => Some(
            match traded {
                Some(true) => end(Outcome::DuplicateSignal),
                _ => (Stage::Market, Request::ResolveMarket),
            },
        ),
        (Stage::Market, Event::Market(found)) => Some(
            if !found {
                end(Outcome::MarketResolveFailed)
            } else if reads_balance(plan) {
                (Stage::Balance, Request::ReadBalance)
            } else {
                (Stage::Order, Request::PlaceOrder { base: None })
            },
        ),
        (Stage::Balance, Event::Balance(balance)) => {
            let base: Option<Binary64> = match balance {
                Some(balance) => {
                    Some(amount_from_balance_pct(balance, plan.terms.trade_amount_pct))
                },
                None => None,
            };
            Some((Stage::Order, Request::PlaceOrder { base }))
        },
        (Stage::Order, Event::Order(accepted)) => Some(
            if accepted {
                (Stage::Record, Request::RecordOrder)
            } else {
                end(Outcome::OrderFailed)
            },
        ),
        (Stage::Record, Event::Recorded) => Some(end(Outcome::OrderPlaced)),
        _ => None,
    }
}

/// Where a row of answers leads from a start; `None` where one did not answer what was asked.
pub open spec fn after(plan: Plan, start: (Stage, Request), events: Seq<Event>) -> Option<
    (Stage, Request),
>
    decreases events.len(),
{
    if events.len() == 0 {
        Some(start)
    } else {
        match after(plan, start, events.drop_last()) {
            Some(before) => step_of(plan, before.0, events.last()),
            None => None,
        }
    }
}

/// Whether an order may follow these answers: the signal is neither filtered nor known to be a
/// duplicate, and the market was found.
pub open spec fn cleared(plan: Plan, events: Seq<Event>) -> bool {
    &&& plan.signal
    &&& !plan.terms.filtered
    &&& events.contains(Event::Active(false))
    &&& events.contains(Event::History(Some(false))) || events.contains(Event::History(None))
    &&& events.contains(Event::Market(true))
}

/// Whether the audit is behind these answers: a record of the summary, durably written.
pub open spec fn audited(events: Seq<Event>) -> bool {
    events.contains(Event::Document(true)) && events.contains(Event::Audit(true))
}

/// Whether a candle, or a snapshot, begins here.
pub open spec fn begins(plan: Plan, start: (Stage, Request)) -> bool {
    ||| start == start_of(plan)
    ||| start == audit_start_of(true)
    ||| start == audit_start_of(false)
}

proof fn lemma_heard(events: Seq<Event>)
    requires
        events.len() > 0,
    ensures
        events.contains(events.last()),
        forall|e: Event| #[trigger] events.drop_last().contains(e) ==> events.contains(e),
{
    assert(events[events.len() - 1] == events.last());
    assert forall|e: Event| #[trigger] events.drop_last().contains(e) implies events.contains(
        e,
    ) by {
        let i = choose|i: int|
            0 <= i < events.drop_last().len() && events.drop_last()[i] == e;
        assert(events[i] == e);
    }
}

/// What has been heard by the time that a stage is reached.
spec fn behind(plan: Plan, stage: Stage, events: Seq<Event>) -> bool {
    let wanted = plan.signal && !plan.terms.filtered;
    let active = events.contains(Event::Active(false));
    let history = events.contains(Event::History(Some(false))) || events.contains(
        Event::History(None),
    );
    match stage {
        Stage::Active => wanted,
        Stage::History => wanted && active,
        Stage::Market => wanted && active && history,
        Stage::Balance | Stage::Order => cleared(plan, events),
        Stage::Record => cleared(plan, events) && events.contains(Event::Order(true)),
        _ => true,
    }
}

proof fn lemma_behind(plan: Plan, start: (Stage, Request), events: Seq<Event>)
    requires
        begins(plan, start),
        after(plan, start, events) is Some,
    ensures
        behind(plan, after(plan, start, events).unwrap().0, events),
    decreases events.len(),
{
    if events.len() > 0 {
        lemma_behind(plan, start, events.drop_last());
        lemma_heard(events);
        match events.last() {
            Event::History(traded) => {
                assert(traded == Some(true) || traded == Some(false) || traded is None);
            },
            _ => {},
        }
    }
}

/// An order is asked for only on a signal that is not filtered, that is not being followed
/// already, that is not known to have been traded before, and whose market was found; whatever
/// was answered, and in whatever order.
pub proof fn law_orders_are_cleared(plan: Plan, start: (Stage, Request), events: Seq<Event>)
    requires
        begins(plan, start),
        after(plan, start, events) is Some,
        after(plan, start, events).unwrap().1 is PlaceOrder,
    ensures
        cleared(plan, events),
{
    lemma_behind(plan, start, events);
    if events.len() > 0 {
        lemma_requests_match(plan, start, events.drop_last());
    }
}

/// What is asked for goes with the stage.
proof fn lemma_requests_match(plan: Plan, start: (Stage, Request), events: Seq<Event>)
    requires
        begins(plan, start),
        after(plan, start, events) is Some,
    ensures
        ({
            let now = after(plan, start, events).unwrap();
            now.1 is PlaceOrder <==> now.0 == Stage::Order
        }),
    decreases events.len(),
{
    if events.len() > 0 {
        lemma_requests_match(plan, start, events.drop_last());
    }
}

/// A candle ends with an order placed only where an order was asked for and accepted.
pub proof fn law_placed_means_accepted(plan: Plan, start: (Stage, Request), events: Seq<Event>)
    requires
        begins(plan, start),
        after(plan, start, events) is Some,
        after(plan, start, events).unwrap().1 matches Request::Finish { outcome, .. } && outcome
            == Outcome::OrderPlaced,
    ensures
        cleared(plan, events),
        events.contains(Event::Order(true)),
{
    if events.len() > 0 {
        lemma_behind(plan, start, events.drop_last());
        lemma_heard(events);
    }
}

/// Whether a stage comes after the audit.
spec fn past_audit(stage: Stage) -> bool {
    stage == Stage::Active || stage == Stage::History || stage == Stage::Market || stage
        == Stage::Balance || stage == Stage::Order || stage == Stage::Record
}

proof fn lemma_audit(plan: Plan, summarized: bool, events: Seq<Event>)
    requires
        after(plan, audit_start_of(summarized), events) is Some,
    ensures
        ({
            let stage = after(plan, audit_start_of(summarized), events).unwrap().0;
            &&& stage != Stage::Done ==> summarized
            &&& stage == Stage::Audit ==> events.contains(Event::Document(true))
            &&& past_audit(stage) ==> audited(events)
        }),
    decreases events.len(),
{
    if events.len() > 0 {
        lemma_audit(plan, summarized, events.drop_last());
        lemma_heard(events);
    }
}

/// On a snapshot no order is asked for unless the strategy has a summary of its decision, and not
/// before the audit record of it is durably written.
pub proof fn law_snapshots_are_audited(plan: Plan, summarized: bool, events: Seq<Event>)
    requires
        after(plan, audit_start_of(summarized), events) is Some,
        after(plan, audit_start_of(summarized), events).unwrap().1 is PlaceOrder,
    ensures
        summarized,
        audited(events),
{
    lemma_audit(plan, summarized, events);
    lemma_requests_match(plan, audit_start_of(summarized), events);
}

/// What a snapshot has heard before its audit is written: nothing but of the audit, and only that
/// it went well.
proof fn lemma_before_audit(plan: Plan, summarized: bool, events: Seq<Event>)
    requires
        after(plan, audit_start_of(summarized), events) is Some,
    ensures
        ({
            let now = after(plan, audit_start_of(summarized), events).unwrap();
            let failed = !summarized || events.contains(Event::Document(false)) || events.contains(
                Event::Audit(false),
            );
            &&& failed <==> (now.1 matches Request::Finish { outcome, .. } && outcome
                == Outcome::AuditFailed)
            &&& now.1 is Finish <==> now.0 == Stage::Done
            &&& failed || now.0 == Stage::Document || now.0 == Stage::Audit ==> of_audit(events)
            &&& failed ==> now == end_of(Outcome::AuditFailed)
        }),
    decreases events.len(),
{
    if events.len() > 0 {
        let before = events.drop_last();
        lemma_before_audit(plan, summarized, before);
        lemma_heard(events);
        assert forall|e: Event| events.contains(e) implies before.contains(e) || e
            == events.last() by {
            let i = choose|i: int| 0 <= i < events.len() && events[i] == e;
            if i < before.len() {
                assert(before[i] == e);
            }
        }
        if of_audit(before) && (events.last() is Document || events.last() is Audit) {
            assert(of_audit(events)) by {
                assert forall|i: int| 0 <= i < events.len() implies #[trigger] events[i] is Document
                    || events[i] is Audit by {
                    if i < before.len() {
                        assert(before[i] == events[i]);
                    }
                }
            }
        }
    }
}

/// Whether these answers are all about the audit.
pub open spec fn of_audit(events: Seq<Event>) -> bool {
    forall|i: int| 0 <= i < events.len() ==> #[trigger] events[i] is Document || events[i] is Audit
}

/// A snapshot ends with a failed audit exactly where the strategy has no summary of its decision,
/// or the record could not be made or written; then nothing else has been asked for, no open
/// position is checked and no market looked up.
pub proof fn law_audit_failures(plan: Plan, summarized: bool, events: Seq<Event>)
    requires
        after(plan, audit_start_of(summarized), events) is Some,
    ensures
        ({
            let now = after(plan, audit_start_of(summarized), events).unwrap();
            let failed = !summarized || events.contains(Event::Document(false)) || events.contains(
                Event::Audit(false),
            );
            &&& failed <==> (now.1 matches Request::Finish { outcome, .. } && outcome
                == Outcome::AuditFailed)
            &&& failed ==> of_audit(events) && now.1 == (Request::Finish {
                outcome: Outcome::AuditFailed,
                validate: false,
                prefetch: false,
            })
        }),
{
    lemma_before_audit(plan, summarized, events);
}

/// Whether an event answers what a stage waits for.
pub open spec fn answers(stage: Stage, event: Event) -> bool {
    match stage {
        Stage::Document => event is Document,
        Stage::Audit => event is Audit,
        Stage::Active => event is Active,
        Stage::History => event is History,
        Stage::Market => event is Market,
        Stage::Balance => event is Balance,
        Stage::Order => event is Order,
        Stage::Record => event is Recorded,
        Stage::Done => false,
    }
}

/// How many answers a stage is away from the end, at most.
pub open spec fn answers_left(stage: Stage) -> nat {
    match stage {
        Stage::Document => 8,
        Stage::Audit => 7,
        Stage::Active => 6,
        Stage::History => 5,
        Stage::Market => 4,
        Stage::Balance => 3,
        Stage::Order => 2,
        Stage::Record => 1,
        Stage::Done => 0,
    }
}

/// Every answer to what was asked, and no other, leads on, and closer to the end; at the end, and
/// nowhere else, the request is to finish.
pub proof fn law_answers_lead_to_the_end(plan: Plan, stage: Stage, event: Event)
    ensures
        step_of(plan, stage, event) is Some <==> answers(stage, event),
        step_of(plan, stage, event) matches Some(next) ==> {
            &&& answers_left(next.0) < answers_left(stage)
            &&& next.0 == Stage::Done <==> next.1 is Finish
        },
{
}

/// A traded amount is never below one.
pub proof fn law_amount_at_least_one(balance: Binary64, pct: Binary64)
    ensures
        Binary64::one().at_most(amount_of(balance, pct)),
{
}

/// One step of a chain of roundings: what was within so many roundings of a value and is rounded
/// once more, after the same exact operation on both, is within one more.
proof fn lemma_chain(value: real, before: real, after: real, k: real)
    requires
        value >= 0real,
        0real <= k <= 8real,
        exact::size(before - value) <= value * k * exact::eps() + k * exact::speck(),
        exact::size(after - before) <= exact::size(before) * exact::eps() + exact::speck(),
    ensures
        exact::size(after - value) <= value * (k + 2real) * exact::eps() + (k + 2real)
            * exact::speck(),
        exact::size(before) <= value * 2real + 1real,
{
    exact::lemma_scale();
    let (e, t) = (exact::eps(), exact::speck());
    assert(e == 1real / 9_007_199_254_740_992real);
    let w = value * k * e + k * t;
    assert(k * e <= 1real / 1_000_000real) by (nonlinear_arith)
        requires
            k <= 8real,
            e == 1real / 9_007_199_254_740_992real,
    ;
    assert(k * t <= 1real / 1_000_000real) by (nonlinear_arith)
        requires
            0real <= k <= 8real,
            0real <= t <= e,
            e == 1real / 9_007_199_254_740_992real,
    ;
    assert(value * k * e <= value * (1real / 1_000_000real)) by (nonlinear_arith)
        requires
            value >= 0real,
            k * e <= 1real / 1_000_000real,
    ;
    let b = exact::size(before);
    assert(b <= value + w);
    assert(b <= value * 2real + 1real);
    assert(b * e <= (value + w) * e) by (nonlinear_arith)
        requires
            b <= value + w,
            e >= 0real,
    ;
    assert((value + w) * e == value * e + w * e) by (nonlinear_arith);
    assert(w * e <= value * e + t) by (nonlinear_arith)
        requires
            w == value * k * e + k * t,
            k * e <= 1real / 1_000_000real,
            value >= 0real,
            t >= 0real,
            e >= 0real,
            k >= 0real,
    ;
    assert(value * (k + 2real) * e == value * k * e + value * e + value * e) by (nonlinear_arith);
    assert((k + 2real) * t == k * t + t + t) by (nonlinear_arith);
}

/// What is traded of a balance is a share of it, in percent: in whole cents, not above the share
/// and less than a cent below it, up to rounding; and at least one, whatever the share.
pub proof fn law_amount_is_the_share(balance: Binary64, pct: Binary64)
    requires
        balance.is_finite(),
        pct.is_finite(),
        0real <= exact::exact(balance),
        0real <= exact::exact(pct),
        exact::exact(balance) * exact::exact(pct) * 2real <= exact::big(),
    ensures
        ({
            let share = exact::exact(balance) * exact::exact(pct) / 100real;
            let amount = exact::exact(amount_of(balance, pct));
            &&& amount_of(balance, pct).is_finite()
            &&& amount >= 1real
            &&& amount > 1real ==> amount * 1_000_000_000_000_000real <= share
                * 1_000_000_000_000_002real
            &&& share * 1_000_000_000_000_000real <= (amount + 1real / 100real)
                * 1_000_000_000_000_002real
            &&& exists|cents: int| #[trigger] in_cents(amount_of(balance, pct), cents)
        }),
{
    let hundred = Binary64::count(100);
    let (b, p) = (exact::exact(balance), exact::exact(pct));
    let all = b * p;
    let (e, t) = (exact::eps(), exact::speck());
    assert(all >= 0real) by (nonlinear_arith)
        requires
            all == b * p,
            b >= 0real,
            p >= 0real,
    ;
    exact::lemma_scale();
    exact::lemma_speck_is_tiny();
    exact::lemma_big_is_big();
    exact::law_counts_are_exact(100);
    exact::law_zero_and_one();
    assert(e == 1real / 9_007_199_254_740_992real);
    // The product, its hundredth, and a hundred times that.
    exact::law_times(balance, pct);
    let product = balance.times(pct);
    let x = exact::exact(product);
    assert(all * 0real * e + 0real * t == 0real) by (nonlinear_arith);
    lemma_chain(all, all, x, 0real);
    assert(exact::size(x) <= all * 2real + 1real) by {
        assert(all * 2real * e <= all) by (nonlinear_arith)
            requires
                all >= 0real,
                e <= 1real / 2real,
        ;
    }
    let share = all / 100real;
    let y0 = x / 100real;
    assert(exact::size(y0) <= exact::big());
    exact::law_over(product, hundred);
    let part = product.over(hundred);
    let y = exact::exact(part);
    assert(share * 2real * e == (all * 2real * e) / 100real) by (nonlinear_arith)
        requires
            share == all / 100real,
    ;
    lemma_chain(share, y0, y, 2real);
    assert(share * 4real * e <= share) by (nonlinear_arith)
        requires
            share >= 0real,
            e <= 1real / 4real,
    ;
    let z0 = y * 100real;
    assert(exact::size(z0) <= exact::big());
    exact::law_times(part, hundred);
    let back = part.times(hundred);
    let z = exact::exact(back);
    assert(all * 4real * e == (share * 4real * e) * 100real) by (nonlinear_arith)
        requires
            share == all / 100real,
    ;
    // A hundred times an error of at most four specks is not within four of them; it is next to
    // nothing all the same.
    let tiny = 1real / 1_000_000_000_000_000_000_000_000_000_000real;
    assert(exact::size(z0 - all) <= all * 4real * e + 400real * t);
    assert(exact::size(z0) <= all * 2real + 1real);
    assert(exact::size(z0) * e <= all * e * 2real + e) by (nonlinear_arith)
        requires
            exact::size(z0) <= all * 2real + 1real,
            e >= 0real,
    ;
    assert(exact::size(z0) * e <= all * e + all * 4real * e * e + 400real * t * e)
        by (nonlinear_arith)
        requires
            exact::size(z0) <= all + all * 4real * e + 400real * t,
            e >= 0real,
    ;
    assert(all * 4real * e * e <= all * e) by (nonlinear_arith)
        requires
            all >= 0real,
            e >= 0real,
            4real * e <= 1real,
    ;
    assert(400real * t * e <= t) by (nonlinear_arith)
        requires
            t >= 0real,
            400real * e <= 1real,
    ;
    assert(exact::size(z - all) <= all * 6real * e + 402real * t) by {
        assert(all * 6real * e == all * 4real * e + all * e + all * e) by (nonlinear_arith);
    }
    // Whole cents.
    let n = exact::law_floor(back);
    let cents = back.floor();
    let g0 = n as real / 100real;
    assert(n >= -1);
    assert(exact::size(g0) <= exact::big()) by {
        assert(all * 6real * e <= all) by (nonlinear_arith)
            requires
                all >= 0real,
                6real * e <= 1real,
        ;
    }
    exact::law_over(cents, hundred);
    let amount = cents.over(hundred);
    let g = exact::exact(amount);
    exact::law_max(amount, Binary64::one());
    let a = amount_of(balance, pct);
    assert(exact::size(g - g0) <= exact::size(g0) * e + t);
    assert(all * 6real * e == all * (6real * e)) by (nonlinear_arith);
    let d = 6real * e;
    assert(all * d <= all * (1real / 1_000_000_000_000_000real)) by (nonlinear_arith)
        requires
            all >= 0real,
            d <= 1real / 1_000_000_000_000_000real,
    ;
    assert(exact::size(g0) * e <= exact::size(g0) * (1real / 9_000_000_000_000_000real))
        by (nonlinear_arith)
        requires
            exact::size(g0) >= 0real,
            e <= 1real / 9_000_000_000_000_000real,
    ;
    assert(all == share * 100real);
    if a == amount {
        assert(in_cents(a, n));
    } else {
        assert(in_cents(a, 100)) by {
            exact::lemma_value(a);
        }
    }
}

/// Whether an amount is a whole number of cents, correctly rounded.
pub open spec fn in_cents(amount: Binary64, cents: int) -> bool {
    exact::rounds_to(amount, cents as real / 100real)
}

/// A balance is read for a trade exactly where orders are not only pretended and the share is
/// positive, or not a number; what it gives is the share of the plan, and where it could not be
/// read the amount is kept.
pub proof fn law_balance_is_read_for_a_share(plan: Plan, balance: Option<Binary64>)
    ensures
        plan.terms.trade_amount_pct.is_finite() ==> (reads_balance_of(plan) <==> !plan.terms.dry_run
            && exact::exact(plan.terms.trade_amount_pct) > 0real),
        plan.terms.dry_run ==> !reads_balance_of(plan),
        base_of(plan, balance) is None <==> balance is None,
        base_of(plan, balance) matches Some(base) ==> base == amount_of(
            balance.unwrap(),
            plan.terms.trade_amount_pct,
        ),
{
    exact::law_zero_and_one();
    if plan.terms.trade_amount_pct.is_finite() {
        exact::law_order_is_exact(plan.terms.trade_amount_pct, Binary64::zero());
    }
}

/// Open positions are checked against the candle at every end but that of a failed audit; the next
/// market is looked up except after a failed audit, a duplicate, and where the market was not found.
pub proof fn law_ends(outcome: Outcome)
    ensures
        end_of(outcome).0 == Stage::Done,
        end_of(outcome).1 matches Request::Finish { outcome: told, validate, prefetch } && {
            &&& told == outcome
            &&& !validate <==> outcome == Outcome::AuditFailed
            &&& !prefetch <==> outcome == Outcome::AuditFailed || outcome
                == Outcome::DuplicateSignal || outcome == Outcome::MarketResolveFailed
        },
{
}

/// The moment at which the candle after one that closes at `close_time_ms` opens.
pub fn next_open_ms(close_time_ms: i64) -> (r: i64)
    requires
        clock::covered(close_time_ms),
        close_time_ms < clock::LAST_MOMENT,
    ensures
        r == close_time_ms + 1,
{
    close_time_ms + 1
}

/// The moment at which the candle after the next one opens.
pub fn future_open_ms(close_time_ms: i64, interval_ms: i64) -> (r: i64)
    requires
        clock::covered(close_time_ms),
        clock::FIRST_MOMENT <= close_time_ms + interval_ms < clock::LAST_MOMENT,
    ensures
        r == close_time_ms + interval_ms + 1,
{
    close_time_ms + interval_ms + 1
}

/// The moment at which the traded candle closes.
pub fn target_close_time_ms(close_time_ms: i64, interval_ms: i64) -> (r: i64)
    requires
        clock::covered(close_time_ms),
        clock::FIRST_MOMENT <= close_time_ms + interval_ms <= clock::LAST_MOMENT,
    ensures
        r == close_time_ms + interval_ms,
{
    close_time_ms + interval_ms
}

/// The token that pays where a prediction comes true.
pub fn token_for<'a>(prediction: Prediction, up: &'a String, down: &'a String) -> (r: &'a String)
    ensures
        r == (match prediction {
            Prediction::Up => up,
            Prediction::Down => down,
        }),
{
    match prediction {
        Prediction::Up => up,
        Prediction::Down => down,
    }
}

/// Whether a character is a lowercase hexadecimal digit.
pub open spec fn is_hex(c: char) -> bool {
    '0' <= c <= '9' || 'a' <= c <= 'f'
}

/// Whether a text has the shape of a random identifier: five groups of hexadecimal digits with
/// hyphens between them, the third one starting with the version, the fourth with the variant.
pub open spec fn is_trade_id(id: Seq<char>) -> bool {
    &&& id.len() == 36
    &&& forall|i: int|
        0 <= i < 36 ==> if i == 8 || i == 13 || i == 18 || i == 23 {
            #[trigger] id[i] == '-'
        } else {
            is_hex(id[i])
        }
    &&& id[14] == '4'
    &&& '8' <= id[19] <= '9' || 'a' <= id[19] <= 'b'
}

/// Calls `uuid::Uuid::new_v4` and writes the result by its `Display`: 32 lowercase hexadecimal
/// digits of chance, but for the version and variant, in groups of 8, 4, 4, 4 and 12 with hyphens
/// between them. Which digits come is not said; nor that the source of chance is there, without
/// which the call panics.
#[verifier::external_body]
fn random_id() -> (r: String)
    ensures
        is_trade_id(r@),
{
    uuid::Uuid::new_v4().to_string()
}

/// A name for a trade, made at random.
pub fn new_trade_id() -> (r: String)
    ensures
        is_trade_id(r@),
{
    random_id()
}

/// The end of a candle in full.
pub fn finish(outcome: Outcome, trade_id: String, signal_key: String) -> (r: ClosedCandleAction)
    ensures
        r == (match outcome {
            Outcome::NoSignal => ClosedCandleAction::NoSignal,
            Outcome::AuditFailed => ClosedCandleAction::AuditFailed,
            Outcome::Filtered => ClosedCandleAction::Filtered,
            Outcome::DuplicateSignal => ClosedCandleAction::DuplicateSignal,
            Outcome::MarketResolveFailed => ClosedCandleAction::MarketResolveFailed,
            Outcome::OrderFailed => ClosedCandleAction::OrderFailed,
            Outcome::OrderPlaced => ClosedCandleAction::OrderPlaced { trade_id, signal_key },
        }),
{
    match outcome {
        Outcome::NoSignal => ClosedCandleAction::NoSignal,
        Outcome::AuditFailed => ClosedCandleAction::AuditFailed,
        Outcome::Filtered => ClosedCandleAction::Filtered,
        Outcome::DuplicateSignal => ClosedCandleAction::DuplicateSignal,
        Outcome::MarketResolveFailed => ClosedCandleAction::MarketResolveFailed,
        Outcome::OrderFailed => ClosedCandleAction::OrderFailed,
        Outcome::OrderPlaced => ClosedCandleAction::OrderPlaced { trade_id, signal_key },
    }
}

/// One more answer.
proof fn lemma_one_more(plan: Plan, start: (Stage, Request), events: Seq<Event>, event: Event)
    ensures
        after(plan, start, events.push(event)) == (match after(plan, start, events) {
            Some(before) => step_of(plan, before.0, event),
            None => None,
        }),
{
    assert(events.push(event).drop_last() =~= events);
}

/// How a candle or a snapshot ends.
pub open spec fn ends(reached: Option<(Stage, Request)>, outcome: Outcome) -> bool {
    reached matches Some(step) && step.0 == Stage::Done && (step.1 matches Request::Finish {
        outcome: how,
        ..
    } && how == outcome)
}

/// A signal that is not filtered, not followed already, not known to have been traded, and has a
/// market, is ordered: for a share of the balance where a positive share is configured and orders
/// are real, and for the amount there is where the balance cannot be read or is not asked for. An
/// accepted order is recorded, and then placed; one that is not accepted fails.
pub proof fn law_cleared_signals_are_ordered(
    plan: Plan,
    traded: Option<bool>,
    balance: Option<Binary64>,
)
    requires
        plan.signal,
        !plan.terms.filtered,
        traded != Some(true),
        plan.terms.trade_amount_pct.is_finite(),
    ensures
        ({
            let heard = seq![Event::Active(false), Event::History(traded), Event::Market(true)];
            let asked = exact::exact(plan.terms.trade_amount_pct) > 0real && !plan.terms.dry_run;
            let ready = if asked {
                heard.push(Event::Balance(balance))
            } else {
                heard
            };
            let amount = match balance {
                Some(b) => if asked {
                    Some(amount_of(b, plan.terms.trade_amount_pct))
                } else {
                    None
                },
                None => None,
            };
            let accepted = ready.push(Event::Order(true));
            &&& asked ==> (after(plan, start_of(plan), heard) matches Some(step) && step.1
                is ReadBalance)
            &&& after(plan, start_of(plan), ready) matches Some(step) && step.1
                == (Request::PlaceOrder { base: amount })
            &&& ends(
                after(plan, start_of(plan), ready.push(Event::Order(false))),
                Outcome::OrderFailed,
            )
            &&& after(plan, start_of(plan), accepted) matches Some(step) && step.1 is RecordOrder
            &&& ends(
                after(plan, start_of(plan), accepted.push(Event::Recorded)),
                Outcome::OrderPlaced,
            )
        }),
{
    exact::law_zero_and_one();
    exact::law_order_is_exact(plan.terms.trade_amount_pct, Binary64::zero());
    let start = start_of(plan);
    let none = Seq::<Event>::empty();
    let one = none.push(Event::Active(false));
    let two = one.push(Event::History(traded));
    let heard = seq![Event::Active(false), Event::History(traded), Event::Market(true)];
    assert(two.push(Event::Market(true)) =~= heard);
    lemma_one_more(plan, start, none, Event::Active(false));
    lemma_one_more(plan, start, one, Event::History(traded));
    lemma_one_more(plan, start, two, Event::Market(true));
    lemma_one_more(plan, start, heard, Event::Balance(balance));
    let asked = exact::exact(plan.terms.trade_amount_pct) > 0real && !plan.terms.dry_run;
    let ready = if asked {
        heard.push(Event::Balance(balance))
    } else {
        heard
    };
    lemma_one_more(plan, start, ready, Event::Order(false));
    lemma_one_more(plan, start, ready, Event::Order(true));
    lemma_one_more(plan, start, ready.push(Event::Order(true)), Event::Recorded);
}

/// A candle without a signal ends with none, and a filtered signal ends filtered; a signal that is
/// followed already, or known to have been traded, is a duplicate; and one without a market ends
/// there.
pub proof fn law_other_signals_end_early(plan: Plan, traded: Option<bool>)
    ensures
        !plan.signal ==> ends(Some(start_of(plan)), Outcome::NoSignal),
        plan.signal && plan.terms.filtered ==> ends(Some(start_of(plan)), Outcome::Filtered),
        plan.signal && !plan.terms.filtered ==> {
            let first = Event::Active(false);
            &&& ends(
                after(plan, start_of(plan), seq![Event::Active(true)]),
                Outcome::DuplicateSignal,
            )
            &&& ends(
                after(plan, start_of(plan), seq![first, Event::History(Some(true))]),
                Outcome::DuplicateSignal,
            )
            &&& traded != Some(true) ==> ends(
                after(
                    plan,
                    start_of(plan),
                    seq![first, Event::History(traded), Event::Market(false)],
                ),
                Outcome::MarketResolveFailed,
            )
        },
{
    let start = start_of(plan);
    let none = Seq::<Event>::empty();
    let first = Event::Active(false);
    let one = none.push(first);
    lemma_one_more(plan, start, none, Event::Active(true));
    lemma_one_more(plan, start, none, first);
    lemma_one_more(plan, start, one, Event::History(Some(true)));
    lemma_one_more(plan, start, one, Event::History(traded));
    lemma_one_more(plan, start, one.push(Event::History(traded)), Event::Market(false));
    assert(none.push(Event::Active(true)) =~= seq![Event::Active(true)]);
    assert(one.push(Event::History(Some(true))) =~= seq![first, Event::History(Some(true))]);
    assert(one.push(Event::History(traded)).push(Event::Market(false)) =~= seq![
        first,
        Event::History(traded),
        Event::Market(false),
    ]);
}

/// A snapshot whose summary is documented and durably written goes on as a candle does; where either
/// fails, or there is no summary, the audit has failed.
pub proof fn law_audits_come_first(plan: Plan)
    ensures
        ends(Some(audit_start_of(false)), Outcome::AuditFailed),
        audit_start_of(true).1 is Document,
        ends(after(plan, audit_start_of(true), seq![Event::Document(false)]), Outcome::AuditFailed),
        ends(
            after(plan, audit_start_of(true), seq![Event::Document(true), Event::Audit(false)]),
            Outcome::AuditFailed,
        ),
        after(plan, audit_start_of(true), seq![Event::Document(true)]) matches Some(step) && step.1
            is WriteAudit,
        after(plan, audit_start_of(true), seq![Event::Document(true), Event::Audit(true)]) == Some(
            start_of(plan),
        ),
{
    let start = audit_start_of(true);
    let none = Seq::<Event>::empty();
    let one = none.push(Event::Document(true));
    lemma_one_more(plan, start, none, Event::Document(false));
    lemma_one_more(plan, start, none, Event::Document(true));
    lemma_one_more(plan, start, one, Event::Audit(false));
    lemma_one_more(plan, start, one, Event::Audit(true));
    assert(none.push(Event::Document(false)) =~= seq![Event::Document(false)]);
    assert(one =~= seq![Event::Document(true)]);
    assert(one.push(Event::Audit(false)) =~= seq![Event::Document(true), Event::Audit(false)]);
    assert(one.push(Event::Audit(true)) =~= seq![Event::Document(true), Event::Audit(true)]);
}

} // verus!
