//! What a strategy is: it is fed closed candles, or snapshots of market microstructure, one by
//! one, and now and then answers with a signal.

use vstd::prelude::*;
use vstd::string::*;
use crate::binary64::Binary64;
use crate::candle::Candle;
use crate::microstructure::MicrostructureSnapshot;

verus! {

/// Which way the next candle is expected to go.
#[derive(Clone, Copy, Debug, PartialEq, Eq, Structural)]
pub enum Prediction {
    Up,
    Down,
}

impl Prediction {
    pub open spec fn label(self) -> Seq<char> {
        match self {
            Prediction::Up => "UP"@,
            Prediction::Down => "DOWN"@,
        }
    }

    /// `UP` or `DOWN`.
    pub fn text(self) -> (r: String)
        ensures
            r@ == self.label(),
    {
        match self {
            Prediction::Up => String::from_str("UP"),
            Prediction::Down => String::from_str("DOWN"),
        }
    }
}

/// The texts of some strings.
pub open spec fn texts(strings: Seq<String>) -> Seq<Seq<char>> {
    Seq::new(strings.len(), |i: int| strings[i]@)
}

/// What the last look at a snapshot came to.
///
/// It is kept apart from the signal, so that a decision to do nothing can be traced in the audit
/// without ever being taken for an order.
#[derive(Clone, Debug, PartialEq, Eq)]
pub struct MicrostructureDecisionSummary {
    pub prediction: Option<Prediction>,
    pub green_votes: u32,
    pub red_votes: u32,
    pub active_rules: Vec<String>,
}

impl MicrostructureDecisionSummary {
    /// Whether two summaries say the same.
    pub open spec fn same(self, other: MicrostructureDecisionSummary) -> bool {
        &&& self.prediction == other.prediction
        &&& self.green_votes == other.green_votes
        &&& self.red_votes == other.red_votes
        &&& texts(self.active_rules@) == texts(other.active_rules@)
    }

    /// A summary that says the same.
    pub fn duplicate(&self) -> (r: MicrostructureDecisionSummary)
        ensures
            r.same(*self),
    {
        let mut active_rules: Vec<String> = Vec::new();
        let mut i: usize = 0;
        while i < self.active_rules.len()
            invariant
                i <= self.active_rules@.len(),
                texts(active_rules@) == texts(self.active_rules@.take(i as int)),
            decreases self.active_rules@.len() - i,
        {
            let ghost before = active_rules@;
            active_rules.push(self.active_rules[i].clone());
            i = i + 1;
            assert(texts(active_rules@) =~= texts(before).push(self.active_rules@[i - 1]@));
            assert(texts(self.active_rules@.take(i as int)) =~= texts(
                self.active_rules@.take(i - 1),
            ).push(self.active_rules@[i - 1]@));
        }
        assert(self.active_rules@.take(i as int) =~= self.active_rules@);
        MicrostructureDecisionSummary {
            prediction: self.prediction,
            green_votes: self.green_votes,
            red_votes: self.red_votes,
            active_rules,
        }
    }
}

/// A call on the next candle. The time is in milliseconds since the Unix epoch, UTC.
#[derive(Clone, Debug)]
pub struct Signal {
    pub prediction: Prediction,
    pub signal_candle_close_time_ms: i64,
    pub rsi: Binary64,
    pub strategy_name: String,
}

/// A prediction with the number that goes with it.
#[derive(Clone, Copy, Debug)]
pub struct Call {
    pub prediction: Prediction,
    pub rsi: Binary64,
}

/// Whether a signal makes a call, on a candle that closes at `close_time_ms`, for a strategy.
pub open spec fn signals(
    signal: Option<Signal>,
    call: Option<Call>,
    close_time_ms: i64,
    name: Seq<char>,
) -> bool {
    match (signal, call) {
        (Some(s), Some(c)) => {
            &&& s.prediction == c.prediction
            &&& s.rsi == c.rsi
            &&& s.signal_candle_close_time_ms == close_time_ms
            &&& s.strategy_name@ == name
        },
        (None, None) => true,
        _ => false,
    }
}

/// The signal that makes a call.
pub fn signal_for(call: Option<Call>, close_time_ms: i64, name: &str) -> (r: Option<Signal>)
    ensures
        signals(r, call, close_time_ms, name@),
{
    match call {
        Some(c) => Some(
            Signal {
                prediction: c.prediction,
                signal_candle_close_time_ms: close_time_ms,
                rsi: c.rsi,
                strategy_name: String::from_str(name),
            },
        ),
        None => None,
    }
}

/// A strategy. Whatever it is fed, a signal it gives names the strategy and the moment at which
/// the candle that set it off closed.
pub trait Strategy: Send + Sync {
    /// What every strategy built by its constructor keeps.
    spec fn well_formed(&self) -> bool;

    /// The name it goes by.
    spec fn title(&self) -> Seq<char>;

    /// Whether a signal is what the strategy answers to a candle, where it sees some other candles
    /// first.
    spec fn answers(&self, first: Seq<Candle>, candle: Candle, signal: Option<Signal>) -> bool;

    /// Whether it looks at snapshots rather than candles.
    spec fn reads_snapshots(&self) -> bool;

    /// Whether a signal is what the strategy answers to a snapshot.
    spec fn answers_snapshot(
        &self,
        snapshot: MicrostructureSnapshot,
        signal: Option<Signal>,
    ) -> bool;

    /// Whether the strategy is as a look at a snapshot leaves it.
    spec fn has_considered(&self, snapshot: MicrostructureSnapshot) -> bool;

    /// Whether this is what the strategy's last look at a snapshot came to.
    spec fn summary_is(&self, summary: Option<MicrostructureDecisionSummary>) -> bool;

    /// Its own strength reading.
    spec fn shown_rsi(&self) -> Option<Binary64>;

    /// The series of the last three candles.
    spec fn shown_series(&self) -> Option<bool>;

    /// Its own range reading.
    spec fn shown_atr(&self) -> Option<Binary64>;

    /// What the log of a closed candle says besides its prices.
    spec fn shown_extras(&self) -> Seq<char>;

    fn name(&self) -> (r: &str)
        ensures
            r@ == self.title(),
    ;

    /// Takes a closed candle and answers with a signal, or with none. What it answers later on is
    /// what it would have answered with this candle first.
    fn on_closed_candle(&mut self, candle: &Candle) -> (r: Option<Signal>)
        requires
            old(self).well_formed(),
        ensures
            final(self).well_formed(),
            final(self).title() == old(self).title(),
            r matches Some(s) ==> s.signal_candle_close_time_ms == candle.close_time_ms
                && s.strategy_name@ == old(self).title(),
            old(self).answers(Seq::empty(), *candle, r),
            forall|first: Seq<Candle>, c: Candle, s: Option<Signal>| #[trigger]
                final(self).answers(first, c, s) == old(self).answers(seq![*candle] + first, c, s),
    ;

    /// Whether the strategy looks at snapshots rather than candles.
    fn requires_microstructure(&self) -> (r: bool)
        ensures
            r == self.reads_snapshots(),
    ;

    /// Takes a snapshot and answers with a signal, or with none. That does not touch what it
    /// answers to candles; a strategy that does not look at snapshots is left as it was.
    fn on_microstructure_snapshot(&mut self, snapshot: &MicrostructureSnapshot) -> (r: Option<
        Signal,
    >)
        requires
            old(self).well_formed(),
        ensures
            final(self).well_formed(),
            final(self).title() == old(self).title(),
            r matches Some(s) ==> s.signal_candle_close_time_ms == snapshot.candle.close_time_ms
                && s.strategy_name@ == old(self).title(),
            old(self).answers_snapshot(*snapshot, r),
            final(self).has_considered(*snapshot),
            forall|first: Seq<Candle>, c: Candle, s: Option<Signal>| #[trigger]
                final(self).answers(first, c, s) == old(self).answers(first, c, s),
            !old(self).reads_snapshots() ==> r is None && &*final(self) == &*old(self),
    ;

    /// What the last look at a snapshot came to; nothing where the strategy does not look at them.
    fn last_microstructure_decision_summary(&self) -> (r: Option<MicrostructureDecisionSummary>)
        ensures
            self.summary_is(r),
            !self.reads_snapshots() ==> r is None,
    ;

    /// Takes a closed candle of the past without answering. What it answers later on is what it
    /// would have answered with this candle first.
    fn warmup(&mut self, candle: &Candle)
        requires
            old(self).well_formed(),
        ensures
            final(self).well_formed(),
            final(self).title() == old(self).title(),
            forall|first: Seq<Candle>, c: Candle, s: Option<Signal>| #[trigger]
                final(self).answers(first, c, s) == old(self).answers(seq![*candle] + first, c, s),
    ;

    /// The strategy's own strength reading.
    fn current_rsi(&self) -> (r: Option<Binary64>)
        ensures
            r == self.shown_rsi(),
    ;

    /// The series of the last three candles: `Some(true)` where all three are green, `Some(false)`
    /// where all three are red, `None` where they are mixed, or no candles are kept.
    fn current_series(&self) -> (r: Option<bool>)
        ensures
            r == self.shown_series(),
    ;

    /// The strategy's own range reading.
    fn current_atr(&self) -> (r: Option<Binary64>)
        ensures
            r == self.shown_atr(),
    ;

    /// What the log of a closed candle says besides its prices.
    fn candle_log_extras(&self) -> (r: String)
        requires
            self.well_formed(),
        ensures
            r@ == self.shown_extras(),
    ;
}

/// A signal is there exactly where a call is, and says the same: the prediction and its number, the
/// moment and the name.
pub proof fn law_signals_say_the_call(
    signal: Option<Signal>,
    call: Option<Call>,
    close_time_ms: i64,
    name: Seq<char>,
)
    requires
        signals(signal, call, close_time_ms, name),
    ensures
        signal is Some <==> call is Some,
        signal matches Some(s) ==> s.prediction == call.unwrap().prediction && s.rsi
            == call.unwrap().rsi && s.signal_candle_close_time_ms == close_time_ms
            && s.strategy_name@ == name,
{
}

/// The two predictions read differently, as the way they go.
pub proof fn law_labels()
    ensures
        Prediction::Up.label() == seq!['U', 'P'],
        Prediction::Down.label() == seq!['D', 'O', 'W', 'N'],
{
    reveal_strlit("UP");
    reveal_strlit("DOWN");
    assert(Prediction::Up.label() =~= seq!['U', 'P']);
    assert(Prediction::Down.label() =~= seq!['D', 'O', 'W', 'N']);
}

} // verus!
