//! Ensembles of rules that vote on the next candle.
//!
//! A rule is a color and some conditions on numbered features. It votes for its color when every
//! condition holds; the color with more votes is the call.

use std::collections::VecDeque;
use vstd::prelude::*;
use vstd::arithmetic::power::*;
use vstd::string::*;
use crate::binary64::Binary64;
use crate::candle;
use crate::candle::Candle;
use crate::exact;
use crate::features;
use crate::features::{Feats, Feature, Meters};
use crate::strategy::{Call, Prediction};
use crate::text;

verus! {

/// How many candles an ensemble looks back.
pub const MAX_WINDOW: usize = 160;

/// How a condition tests a feature.
#[derive(Clone, Copy, Debug, PartialEq, Eq, Structural)]
pub enum Op {
    /// At least the first threshold.
    Ge,
    /// At most the first threshold.
    Le,
    /// The first threshold, up to ten to the minus 9.
    Eq,
    /// From the first threshold to the second, both included.
    Between,
    /// One of the whole numbers from the first threshold to the second, up to ten to the minus 9.
    In,
    /// No condition at all: fills the slots that a rule leaves free.
    Any,
}

/// A condition: how it tests, the number of the feature, two thresholds in units of the last
/// decimal, and how many decimals they have.
pub type Cond = (Op, u8, i64, i64, u8);

/// Fills a slot that a rule leaves free.
pub const ANY: Cond = (Op::Any, 0, 0, 0, 0);

/// Ten to the `decimals`, at most to the 19.
pub open spec fn unit_of(decimals: u8) -> u64 {
    pow(
        10,
        if decimals < 19 {
            decimals as nat
        } else {
            19
        },
    ) as u64
}

fn unit(decimals: u8) -> (r: u64)
    ensures
        r == unit_of(decimals),
        r > 0,
{
    let mut r: u64 = 1;
    let mut i: u8 = 0;
    let last: u8 = if decimals < 19 { decimals } else { 19 };
    proof {
        lemma_pow0(10);
    }
    assert(pow(10, 19) == 10_000_000_000_000_000_000) by {
        reveal_with_fuel(pow, 20);
    }
    while i < last
        invariant
            i <= last <= 19,
            r == pow(10, i as nat),
            r > 0,
            pow(10, 19) == 10_000_000_000_000_000_000,
        decreases last - i,
    {
        proof {
            text::lemma_pow_step(i as nat);
            lemma_pow_increases(10, (i + 1) as nat, 19);
        }
        r = r * 10;
        i = i + 1;
    }
    r
}

/// The number with `places` units of the last of so many decimals, correctly rounded.
pub open spec fn threshold_of(places: i64, decimals: u8) -> Binary64 {
    if places < 0 {
        Binary64::ratio(true, (-places) as u64, unit_of(decimals))
    } else {
        Binary64::ratio(false, places as u64, unit_of(decimals))
    }
}

pub fn threshold(places: i64, decimals: u8) -> (r: Binary64)
    ensures
        r == threshold_of(places, decimals),
{
    if places < 0 {
        Binary64::ratio(true, (-(places as i128)) as u64, unit(decimals))
    } else {
        Binary64::ratio(false, places as u64, unit(decimals))
    }
}

/// Whether two numbers are less than ten to the minus 9 apart.
pub open spec fn near(v: Binary64, x: Binary64) -> bool {
    v.minus(x).abs().less(Binary64::ratio(false, 1, 1_000_000_000))
}

fn is_near(v: Binary64, x: Binary64) -> (r: bool)
    ensures
        r == near(v, x),
{
    v.minus(x).abs().less(Binary64::ratio(false, 1, 1_000_000_000))
}

/// Whether a number is near one of the whole numbers `first ..= last`.
pub open spec fn near_one_of(v: Binary64, first: i64, last: i64) -> bool {
    exists|x: i64| first <= x <= last && #[trigger] near(v, threshold_of(x, 0))
}

fn is_near_one_of(v: Binary64, first: i64, last: i64) -> (r: bool)
    ensures
        r == near_one_of(v, first, last),
{
    let mut x: i128 = first as i128;
    while x <= last as i128
        invariant
            first <= x,
            forall|y: i64| first <= y < x ==> !#[trigger] near(v, threshold_of(y, 0)),
        decreases last - x + 1,
    {
        if is_near(v, threshold(x as i64, 0)) {
            return true;
        }
        x = x + 1;
    }
    false
}

/// Whether a condition holds of the value of its feature.
pub open spec fn holds_of(v: Binary64, cond: Cond) -> bool {
    let a = threshold_of(cond.2, cond.4);
    let b = threshold_of(cond.3, cond.4);
    match cond.0 {
        Op::Ge => a.at_most(v),
        Op::Le => v.at_most(a),
        Op::Eq => near(v, a),
        Op::Between => a.at_most(v) && v.at_most(b),
        Op::In => near_one_of(v, cond.2, cond.3),
        Op::Any => true,
    }
}

pub fn holds(v: Binary64, cond: &Cond) -> (r: bool)
    ensures
        r == holds_of(v, *cond),
{
    let a: Binary64 = threshold(cond.2, cond.4);
    match cond.0 {
        Op::Ge => a.at_most(v),
        Op::Le => v.at_most(a),
        Op::Eq => is_near(v, a),
        Op::Between => a.at_most(v) && v.at_most(threshold(cond.3, cond.4)),
        Op::In => is_near_one_of(v, cond.2, cond.3),
        Op::Any => true,
    }
}

/// Whether a condition is met: its feature is known and the test holds.
pub open spec fn met(feats: Seq<Option<Binary64>>, cond: Cond) -> bool {
    cond.0 == Op::Any || match features::numbered(feats, cond.1 as int) {
        Some(v) => holds_of(v, cond),
        None => false,
    }
}

/// The color that a rule votes for; `None` where a condition is not met.
pub open spec fn fires(feats: Seq<Option<Binary64>>, green: bool, conds: Seq<Cond>) -> Option<
    bool,
> {
    if forall|i: int| 0 <= i < conds.len() ==> met(feats, #[trigger] conds[i]) {
        Some(green)
    } else {
        None
    }
}

pub fn rule_fires<const N: usize>(feats: &Feats, rule: &(bool, [Cond; N])) -> (r: Option<bool>)
    ensures
        r == fires(feats.f@, rule.0, rule.1@),
{
    let mut i: usize = 0;
    while i < N
        invariant
            i <= N,
            rule.1@.len() == N,
            forall|j: int| 0 <= j < i ==> met(feats.f@, #[trigger] rule.1@[j]),
        decreases N - i,
    {
        let cond: Cond = rule.1[i];
        if cond.0 != Op::Any {
            match feats.get(cond.1) {
                Some(v) => {
                    if !holds(v, &cond) {
                        assert(!met(feats.f@, rule.1@[i as int]));
                        return None;
                    }
                },
                None => {
                    assert(!met(feats.f@, rule.1@[i as int]));
                    return None;
                },
            }
        }
        i = i + 1;
    }
    Some(rule.0)
}

/// How many rules vote for a color.
pub open spec fn votes_for<const N: usize>(
    feats: Seq<Option<Binary64>>,
    rules: Seq<(bool, [Cond; N])>,
    green: bool,
) -> nat
    decreases rules.len(),
{
    if rules.len() == 0 {
        0
    } else {
        votes_for(feats, rules.drop_last(), green) + (if fires(
            feats,
            rules.last().0,
            rules.last().1@,
        ) == Some(green) {
            1nat
        } else {
            0
        })
    }
}

/// There are no more votes than rules.
pub proof fn law_no_more_votes_than_rules<const N: usize>(
    feats: Seq<Option<Binary64>>,
    rules: Seq<(bool, [Cond; N])>,
)
    ensures
        votes_for(feats, rules, true) + votes_for(feats, rules, false) <= rules.len(),
    decreases rules.len(),
{
    if rules.len() > 0 {
        law_no_more_votes_than_rules(feats, rules.drop_last());
    }
}

/// Counts the votes of all rules, green and red.
pub fn tally<const N: usize, const M: usize>(feats: &Feats, rules: &[(bool, [Cond; N]); M]) -> (r: (
    u32,
    u32,
))
    requires
        M <= u32::MAX,
    ensures
        r.0 == votes_for(feats.f@, rules@, true),
        r.1 == votes_for(feats.f@, rules@, false),
        r.0 + r.1 <= M,
{
    let mut green: u32 = 0;
    let mut red: u32 = 0;
    let mut i: usize = 0;
    while i < M
        invariant
            i <= M <= u32::MAX,
            rules@.len() == M,
            green == votes_for(feats.f@, rules@.take(i as int), true),
            red == votes_for(feats.f@, rules@.take(i as int), false),
            green + red <= i,
        decreases M - i,
    {
        match rule_fires(feats, &rules[i]) {
            Some(true) => {
                green = green + 1;
            },
            Some(false) => {
                red = red + 1;
            },
            None => {},
        }
        i = i + 1;
        assert(rules@.take(i as int).drop_last() =~= rules@.take(i - 1));
    }
    assert(rules@.take(i as int) =~= rules@);
    (green, red)
}

/// Share of the larger side among all votes, in percent.
pub open spec fn dominance_of(green: u32, red: u32) -> Binary64 {
    let most = if green >= red {
        green
    } else {
        red
    };
    Binary64::count(most as u64).over(Binary64::count((green + red) as u64)).times(
        Binary64::count(100),
    )
}

pub fn dominance(green: u32, red: u32) -> (r: Binary64)
    ensures
        r == dominance_of(green, red),
{
    let most: u32 = if green >= red { green } else { red };
    let total: u64 = green as u64 + red as u64;
    Binary64::count(most as u64).over(Binary64::count(total)).times(Binary64::count(100))
}

/// What the votes come to: nothing where they are too few or tied.
pub open spec fn call_of(votes: (u32, u32), min_votes: u32) -> Option<Call> {
    if votes.0 + votes.1 < min_votes || votes.0 == votes.1 {
        None
    } else {
        Some(
            Call {
                prediction: if votes.0 > votes.1 {
                    Prediction::Up
                } else {
                    Prediction::Down
                },
                rsi: dominance_of(votes.0, votes.1),
            },
        )
    }
}

pub fn call(votes: (u32, u32), min_votes: u32) -> (r: Option<Call>)
    ensures
        r == call_of(votes, min_votes),
{
    let total: u64 = votes.0 as u64 + votes.1 as u64;
    if total < min_votes as u64 || votes.0 == votes.1 {
        return None;
    }
    let prediction: Prediction = if votes.0 > votes.1 { Prediction::Up } else { Prediction::Down };
    Some(Call { prediction, rsi: dominance(votes.0, votes.1) })
}

/// The votes as the log shows them.
pub open spec fn votes_text(votes: (u32, u32), min_votes: u32) -> Seq<char> {
    let total = votes.0 + votes.1;
    if total == 0 {
        "green=0 | red=0 | total=0 | min_votes="@ + text::digits(min_votes as int)
    } else {
        "green="@ + text::digits(votes.0 as int) + " | red="@ + text::digits(votes.1 as int)
            + " | total="@ + text::digits(total) + " | pct="@ + text::fixed_of(
            dominance_of(votes.0, votes.1),
            1,
        ) + "% | min_votes="@ + text::digits(min_votes as int)
    }
}

pub fn describe_votes(votes: (u32, u32), min_votes: u32) -> (r: String)
    ensures
        r@ == votes_text(votes, min_votes),
{
    let total: u64 = votes.0 as u64 + votes.1 as u64;
    if total == 0 {
        let mut r: String = String::from_str("green=0 | red=0 | total=0 | min_votes=");
        text::append_number(&mut r, min_votes as u128);
        return r;
    }
    let mut r: String = String::from_str("green=");
    text::append_number(&mut r, votes.0 as u128);
    r.append(" | red=");
    text::append_number(&mut r, votes.1 as u128);
    r.append(" | total=");
    text::append_number(&mut r, total as u128);
    r.append(" | pct=");
    text::append_fixed(&mut r, dominance(votes.0, votes.1), 1);
    r.append("% | min_votes=");
    text::append_number(&mut r, min_votes as u128);
    r
}

/// What an ensemble remembers: the window, the meters and how the last vote went.
#[derive(Debug)]
pub struct Ensemble {
    pub window: VecDeque<Candle>,
    pub meters: Meters,
    pub min_votes: u32,
    pub last_votes: (u32, u32),
}

impl Ensemble {
    /// The window is never longer than `MAX_WINDOW`.
    pub open spec fn well_formed(&self) -> bool {
        self.window@.len() <= MAX_WINDOW
    }

    /// Nothing seen yet.
    pub open spec fn is_fresh(&self, min_votes: u32) -> bool {
        &&& self.window@ == Seq::<Candle>::empty()
        &&& self.meters == Meters::fresh()
        &&& self.min_votes == min_votes
        &&& self.last_votes == (0u32, 0u32)
    }

    /// Whether `self` has seen one more candle than `before`; the votes aside.
    pub open spec fn has_seen(&self, before: Ensemble, candle: Candle) -> bool {
        &&& self.window@ == candle::pushed(before.window@, candle, MAX_WINDOW as int)
        &&& self.meters == before.meters.updated(candle)
        &&& self.min_votes == before.min_votes
    }

    /// The votes of some rules, green and red, on what has been seen.
    pub open spec fn votes<const N: usize>(
        &self,
        features: Seq<Feature>,
        rules: Seq<(bool, [Cond; N])>,
    ) -> (nat, nat) {
        let feats = features::feats_of(features, self.window@, self.meters);
        (votes_for(feats, rules, true), votes_for(feats, rules, false))
    }

    /// What some rules call on a candle, where the ensemble sees some other candles first: nothing
    /// on one that closed where it opened.
    pub open spec fn call_after<const N: usize>(
        &self,
        first: Seq<Candle>,
        candle: Candle,
        features: Seq<Feature>,
        rules: Seq<(bool, [Cond; N])>,
    ) -> Option<Call> {
        let before = candle::window_after(self.window@, first, MAX_WINDOW as int);
        let window = candle::pushed(before, candle, MAX_WINDOW as int);
        let meters = self.meters.after(first).updated(candle);
        let feats = features::feats_of(features, window, meters);
        if candle.open.equals(candle.close) {
            None
        } else {
            call_of(
                (votes_for(feats, rules, true) as u32, votes_for(feats, rules, false) as u32),
                self.min_votes,
            )
        }
    }

    pub fn new(min_votes: u32) -> (r: Ensemble)
        ensures
            r.is_fresh(min_votes),
            r.well_formed(),
    {
        Ensemble {
            window: VecDeque::with_capacity(MAX_WINDOW + 1),
            meters: Meters::new(),
            min_votes,
            last_votes: (0, 0),
        }
    }

    /// Takes one more candle.
    pub fn feed(&mut self, candle: &Candle)
        requires
            old(self).well_formed(),
        ensures
            final(self).well_formed(),
            final(self).has_seen(*old(self), *candle),
            final(self).last_votes == old(self).last_votes,
    {
        self.meters.update(candle);
        candle::push_candle(&mut self.window, candle, MAX_WINDOW);
    }

    /// Lets the rules vote on what has been seen, and remembers how it went.
    pub fn vote<const K: usize, const N: usize, const M: usize>(
        &mut self,
        features: &[Feature; K],
        rules: &[(bool, [Cond; N]); M],
    ) -> (r: (u32, u32))
        requires
            M <= u32::MAX,
        ensures
            final(self).window == old(self).window,
            final(self).meters == old(self).meters,
            final(self).min_votes == old(self).min_votes,
            final(self).last_votes == r,
            (r.0 as nat, r.1 as nat) == old(self).votes(features@, rules@),
    {
        let feats: Feats = features::compute_feats(features, &self.window, &self.meters);
        let votes: (u32, u32) = tally(&feats, rules);
        self.last_votes = votes;
        votes
    }

    /// Takes one more candle and lets the rules vote, unless it closed where it opened.
    pub fn decide<const K: usize, const N: usize, const M: usize>(
        &mut self,
        candle: &Candle,
        features: &[Feature; K],
        rules: &[(bool, [Cond; N]); M],
    ) -> (r: Option<Call>)
        requires
            old(self).well_formed(),
            M <= u32::MAX,
        ensures
            final(self).well_formed(),
            final(self).has_seen(*old(self), *candle),
            decided(*final(self), *candle, features@, rules@),
            r == call_of(final(self).last_votes, old(self).min_votes),
            r == old(self).call_after(Seq::empty(), *candle, features@, rules@),
    {
        self.feed(candle);
        if candle.open.equals(candle.close) {
            self.last_votes = (0, 0);
            return None;
        }
        let votes: (u32, u32) = self.vote(features, rules);
        call(votes, self.min_votes)
    }
}

/// Whether the votes an ensemble remembers are those on the candle it saw last: none on one that
/// closed where it opened, otherwise those of the rules.
pub open spec fn decided<const N: usize>(
    ensemble: Ensemble,
    candle: Candle,
    features: Seq<Feature>,
    rules: Seq<(bool, [Cond; N])>,
) -> bool {
    if candle.open.equals(candle.close) {
        ensemble.last_votes == (0u32, 0u32)
    } else {
        (ensemble.last_votes.0 as nat, ensemble.last_votes.1 as nat) == ensemble.votes(
            features,
            rules,
        )
    }
}

/// What is called after one more candle is what would have been called with it first.
pub proof fn lemma_later<const N: usize>(
    before: Ensemble,
    after: Ensemble,
    candle: Candle,
    first: Seq<Candle>,
    c: Candle,
    features: Seq<Feature>,
    rules: Seq<(bool, [Cond; N])>,
)
    requires
        after.has_seen(before, candle),
    ensures
        after.call_after(first, c, features, rules) == before.call_after(
            seq![candle] + first,
            c,
            features,
            rules,
        ),
{
    candle::lemma_window_after_one(before.window@, candle, first, MAX_WINDOW as int);
    assert((seq![candle] + first).drop_first() =~= first);
}

/// A call is made exactly where there are enough votes and one side has more of them, and it is
/// that side's.
pub proof fn law_majority_is_called(votes: (u32, u32), min_votes: u32)
    ensures
        call_of(votes, min_votes) is Some <==> votes.0 + votes.1 >= min_votes && votes.0 != votes.1,
        call_of(votes, min_votes) matches Some(call) ==> (call.prediction == Prediction::Up
            <==> votes.0 > votes.1) && (call.prediction == Prediction::Down <==> votes.1 > votes.0),
{
}

/// A rule whose feature is not known does not vote.
pub proof fn law_unknown_features_do_not_vote(
    feats: Seq<Option<Binary64>>,
    green: bool,
    conds: Seq<Cond>,
    i: int,
)
    requires
        0 <= i < conds.len(),
        conds[i].0 != Op::Any,
        features::numbered(feats, conds[i].1 as int) is None,
    ensures
        fires(feats, green, conds) is None,
{
    assert(!met(feats, conds[i]));
}

/// A candle that closed where it opened, `seen` by an ensemble that votes, leaves it as it leaves
/// an ensemble that is only `warmed` with it, but for the votes, of which there are none: nothing
/// is called, and whatever candles come later, all calls and readings are the same.
pub proof fn law_flat_candle_warms<const N: usize>(
    before: Ensemble,
    seen: Ensemble,
    warmed: Ensemble,
    candle: Candle,
    features: Seq<Feature>,
    rules: Seq<(bool, [Cond; N])>,
)
    requires
        candle.open.equals(candle.close),
        seen.has_seen(before, candle),
        decided(seen, candle, features, rules),
        warmed.has_seen(before, candle),
    ensures
        call_of(seen.last_votes, before.min_votes) is None,
        votes_text(seen.last_votes, seen.min_votes) == "green=0 | red=0 | total=0 | min_votes="@
            + text::digits(before.min_votes as int),
        seen.window@ == warmed.window@,
        seen.meters == warmed.meters,
        forall|first: Seq<Candle>, c: Candle| #[trigger]
            seen.call_after(first, c, features, rules) == warmed.call_after(
                first,
                c,
                features,
                rules,
            ),
{
}

/// No call is made on a candle that closed where it opened, whatever the rules say.
pub proof fn law_flat_candles_are_not_called<const N: usize>(
    ensemble: Ensemble,
    candle: Candle,
    features: Seq<Feature>,
    rules: Seq<(bool, [Cond; N])>,
    min_votes: u32,
)
    requires
        candle.open.equals(candle.close),
        decided(ensemble, candle, features, rules),
    ensures
        call_of(ensemble.last_votes, min_votes) is None,
{
}

/// A threshold is the decimal number that it spells, correctly rounded: so many units of the last of
/// so many decimals, below zero where they are.
pub proof fn law_threshold_is_decimal(places: i64, decimals: u8)
    requires
        decimals <= 19,
    ensures
        exact::rounds_to(
            threshold_of(places, decimals),
            places as int as real / pow(10, decimals as nat) as real,
        ),
        decimals == 0 && -0x20_0000_0000_0000 < places < 0x20_0000_0000_0000 ==> exact::exact(
            threshold_of(places, decimals),
        ) == places as int as real,
{
    assert(pow(10, 19) == 10_000_000_000_000_000_000) by {
        reveal_with_fuel(pow, 20);
    }
    lemma_pow_positive(10, decimals as nat);
    lemma_pow_increases(10, decimals as nat, 19);
    let unit = pow(10, decimals as nat);
    assert(unit_of(decimals) == unit);
    let y = unit as real;
    let size = (if places < 0 {
        -places
    } else {
        places as int
    }) as u64;
    exact::law_ratio(places < 0, size, unit as u64);
    let x = places as int as real;
    assert((-x) / y == -(x / y)) by (nonlinear_arith)
        requires
            y > 0real,
    ;
    if decimals == 0 && size < 0x20_0000_0000_0000 {
        lemma_pow0(10);
        exact::law_counts_are_exact(size);
    }
}

/// What conditions on a finite value compare are exact values: at least and at most the threshold,
/// at either sign of it; between two of them, both included. An at-least and an at-most condition
/// with the same threshold are both met only by that threshold.
pub proof fn law_conditions_compare_values(v: Binary64, id: u8, a: i64, b: i64, decimals: u8)
    requires
        v.is_finite(),
        decimals <= 19,
    ensures
        ({
            let x = exact::exact(v);
            let low = exact::exact(threshold_of(a, decimals));
            let high = exact::exact(threshold_of(b, decimals));
            &&& holds_of(v, (Op::Ge, id, a, b, decimals)) <==> low <= x
            &&& holds_of(v, (Op::Le, id, a, b, decimals)) <==> x <= low
            &&& holds_of(v, (Op::Between, id, a, b, decimals)) <==> low <= x <= high
            &&& holds_of(v, (Op::Any, id, a, b, decimals))
            &&& holds_of(v, (Op::Ge, id, a, b, decimals)) && holds_of(
                v,
                (Op::Le, id, a, b, decimals),
            ) <==> x == low
        }),
{
    law_threshold_is_decimal(a, decimals);
    law_threshold_is_decimal(b, decimals);
    exact::law_order_is_exact(v, threshold_of(a, decimals));
    exact::law_order_is_exact(threshold_of(a, decimals), v);
    exact::law_order_is_exact(v, threshold_of(b, decimals));
}

/// Whether a real value is a billionth or so from another: less than a part in 999,999,999.
pub open spec fn not_far(x: real, y: real) -> bool {
    exact::size(x - y) * 999_999_999real < 1real
}

/// Whether a real value is well within a billionth of another: at most a part in 1,000,000,002.
pub open spec fn well_near(x: real, y: real) -> bool {
    exact::size(x - y) * 1_000_000_002real <= 1real
}

proof fn lemma_near(v: Binary64, t: Binary64)
    requires
        v.is_finite(),
        t.is_finite(),
    ensures
        near(v, t) ==> not_far(exact::exact(v), exact::exact(t)),
        well_near(exact::exact(v), exact::exact(t)) ==> near(v, t),
{
    let bound = Binary64::ratio(false, 1, 1_000_000_000);
    let c = Binary64::ratio(false, 999_999_999, 1_000_000_000_000_000_000);
    exact::law_ratio(false, 1, 1_000_000_000);
    exact::law_ratio(false, 999_999_999, 1_000_000_000_000_000_000);
    exact::lemma_scale();
    let e = exact::eps();
    let k = exact::speck();
    let (x, y) = (exact::exact(bound), exact::exact(c));
    let p = 1real / 1_000_000_000real;
    let q = 999_999_999real / 1_000_000_000_000_000_000real;
    assert(k <= 1real / 1_000_000_000_000_000_000_000_000_000_000_000_000_000real) by {
        exact::lemma_speck_is_tiny();
    }
    assert(e == 1real / 9_007_199_254_740_992real);
    assert(exact::size(p) == p && exact::size(q) == q);
    assert(exact::size(x - p) <= p * e + k);
    assert(exact::size(y - q) <= q * e + k);
    assert(x <= p + p * e + k && x >= p - p * e - k);
    assert(y <= q + q * e + k && y >= q - q * e - k);
    assert(p * e == 1real / 9_007_199_254_740_992_000_000_000real) by (nonlinear_arith)
        requires
            p == 1real / 1_000_000_000real,
            e == 1real / 9_007_199_254_740_992real,
    ;
    assert(q * e <= p * e) by (nonlinear_arith)
        requires
            q <= p,
            e >= 0real,
    ;
    assert(0real <= y < x);
    exact::law_distance(v, t, c, bound);
    let d = exact::size(exact::exact(v) - exact::exact(t));
    if d < x {
        assert(d * 999_999_999real < 1real);
    }
    if d * 1_000_000_002real <= 1real {
        assert(d <= y);
    }
}

/// A condition of equality is met by what is well within a billionth of the threshold, and only by
/// what is about that near; one of several whole numbers by what is that near to one of them.
pub proof fn law_equalities_are_near(v: Binary64, id: u8, a: i64, b: i64, decimals: u8)
    requires
        v.is_finite(),
        decimals <= 19,
        -0x20_0000_0000_0000 < a,
        b < 0x20_0000_0000_0000,
    ensures
        ({
            let x = exact::exact(v);
            let t = exact::exact(threshold_of(a, decimals));
            &&& holds_of(v, (Op::Eq, id, a, b, decimals)) ==> not_far(x, t)
            &&& well_near(x, t) ==> holds_of(v, (Op::Eq, id, a, b, decimals))
            &&& holds_of(v, (Op::In, id, a, b, decimals)) ==> exists|n: i64|
                a <= n <= b && #[trigger] not_far(x, n as int as real)
            &&& forall|n: i64|
                a <= n <= b && #[trigger] well_near(x, n as int as real) ==> holds_of(
                    v,
                    (Op::In, id, a, b, decimals),
                )
        }),
{
    let x = exact::exact(v);
    law_threshold_is_decimal(a, decimals);
    lemma_near(v, threshold_of(a, decimals));
    if near_one_of(v, a, b) {
        let n = choose|n: i64| a <= n <= b && #[trigger] near(v, threshold_of(n, 0));
        law_threshold_is_decimal(n, 0);
        lemma_near(v, threshold_of(n, 0));
        assert(not_far(x, n as int as real));
    }
    assert forall|n: i64| a <= n <= b && #[trigger] well_near(x, n as int as real) implies holds_of(
        v,
        (Op::In, id, a, b, decimals),
    ) by {
        law_threshold_is_decimal(n, 0);
        lemma_near(v, threshold_of(n, 0));
        assert(near(v, threshold_of(n, 0)));
    }
}

/// NaN meets no condition; positive infinity is at least, and negative infinity at most, every
/// threshold, and neither is near one.
pub proof fn law_conditions_on_what_is_not_finite(v: Binary64, cond: Cond)
    requires
        !v.is_finite(),
        cond.0 != Op::Any,
        cond.4 <= 19,
    ensures
        holds_of(v, cond) <==> !v.is_nan() && if v.negative() {
            cond.0 == Op::Le
        } else {
            cond.0 == Op::Ge
        },
{
    law_threshold_is_decimal(cond.2, cond.4);
    law_threshold_is_decimal(cond.3, cond.4);
    let e = Binary64::ratio(false, 1, 1_000_000_000);
    exact::law_ratio(false, 1, 1_000_000_000);
    reveal(Binary64::plus_spec);
    let t = threshold_of(cond.2, cond.4);
    assert(t.negated().magnitude() == t.magnitude());
    assert(!near(v, t));
    if cond.0 == Op::In && near_one_of(v, cond.2, cond.3) {
        let n = choose|n: i64|
            cond.2 <= n <= cond.3 && #[trigger] near(v, threshold_of(n, 0));
        law_threshold_is_decimal(n, 0);
        let u = threshold_of(n, 0);
        assert(u.negated().magnitude() == u.magnitude());
        assert(!near(v, u));
    }
}

/// A rule votes for its own color, and exactly where each of its conditions is met: the feature with
/// that number is known and the condition holds of it.
pub proof fn law_rules_vote_where_all_is_met(
    feats: Seq<Option<Binary64>>,
    green: bool,
    conds: Seq<Cond>,
)
    ensures
        fires(feats, green, conds) is Some <==> forall|i: int|
            0 <= i < conds.len() && (#[trigger] conds[i]).0 != Op::Any ==> conds[i].1 < feats.len()
                && (feats[conds[i].1 as int] matches Some(v) && holds_of(v, conds[i])),
        fires(feats, green, conds) matches Some(color) ==> color == green,
{
    if fires(feats, green, conds) is Some {
        assert forall|i: int|
            0 <= i < conds.len() && (#[trigger] conds[i]).0 != Op::Any implies conds[i].1
            < feats.len() && (feats[conds[i].1 as int] matches Some(v) && holds_of(
            v,
            conds[i],
        )) by {
            assert(met(feats, conds[i]));
        }
    } else {
        let i = choose|i: int| 0 <= i < conds.len() && !met(feats, #[trigger] conds[i]);
        assert(conds[i].0 != Op::Any);
    }
}

/// A condition more can only silence a rule.
pub proof fn law_more_conditions_fewer_votes(
    feats: Seq<Option<Binary64>>,
    green: bool,
    conds: Seq<Cond>,
    more: Cond,
)
    ensures
        fires(feats, green, conds.push(more)) is Some ==> fires(feats, green, conds) is Some,
{
    if fires(feats, green, conds.push(more)) is Some {
        assert forall|i: int| 0 <= i < conds.len() implies met(feats, #[trigger] conds[i]) by {
            assert(conds.push(more)[i] == conds[i]);
        }
    }
}

/// One rule more adds one vote for its color where it fires, and none otherwise; so the votes are the
/// rules that fire.
pub proof fn law_each_rule_votes_once<const N: usize>(
    feats: Seq<Option<Binary64>>,
    rules: Seq<(bool, [Cond; N])>,
    rule: (bool, [Cond; N]),
)
    ensures
        votes_for(feats, Seq::<(bool, [Cond; N])>::empty(), true) == 0,
        votes_for(feats, Seq::<(bool, [Cond; N])>::empty(), false) == 0,
        fires(feats, rule.0, rule.1@) is None ==> votes_for(feats, rules.push(rule), true)
            == votes_for(feats, rules, true) && votes_for(feats, rules.push(rule), false)
            == votes_for(feats, rules, false),
        fires(feats, rule.0, rule.1@) is Some ==> votes_for(feats, rules.push(rule), rule.0)
            == votes_for(feats, rules, rule.0) + 1 && votes_for(feats, rules.push(rule), !rule.0)
            == votes_for(feats, rules, !rule.0),
{
    assert(rules.push(rule).drop_last() =~= rules);
}

/// The share of the larger side is a hundred times its votes over all votes, up to rounding: from
/// 50, for as many on either side, to 100, where all agree.
pub proof fn law_dominance_is_share(green: u32, red: u32)
    requires
        green + red > 0,
    ensures
        ({
            let most = if green < red {
                red
            } else {
                green
            };
            let share = 100real * (most as int as real) / ((green + red) as real);
            &&& dominance_of(green, red).is_finite()
            &&& exact::size(exact::exact(dominance_of(green, red)) - share) * 1_000_000_000_000real
                <= 1real
            &&& 50real <= share <= 100real
        }),
{
    let most = if green < red {
        red
    } else {
        green
    };
    let (m, t) = (most as int as real, (green + red) as real);
    let (a, b, h) = (
        Binary64::count(most as u64),
        Binary64::count((green + red) as u64),
        Binary64::count(100),
    );
    exact::law_counts_are_exact(most as u64);
    exact::law_counts_are_exact((green + red) as u64);
    exact::law_counts_are_exact(100);
    exact::lemma_scale();
    exact::lemma_speck_is_tiny();
    let e = exact::eps();
    let k = exact::speck();
    let r = m / t;
    assert(1real <= 2real * r && r <= 1real) by (nonlinear_arith)
        requires
            r == m / t,
            t > 0real,
            m <= t,
            2real * m >= t,
    ;
    exact::law_over(a, b);
    let q = a.over(b);
    let x = exact::exact(q);
    assert(r * e <= e && r * e >= 0real) by (nonlinear_arith)
        requires
            0real <= r <= 1real,
            e >= 0real,
    ;
    assert(e == 1real / 9_007_199_254_740_992real);
    assert(x <= r + e + k && x >= r - e - k);
    exact::lemma_big_is_big();
    exact::law_times(q, h);
    let y = exact::exact(q.times(h));
    let p = x * 100real;
    assert(exact::size(p) <= 101real);
    assert(exact::size(p) * e <= 101real * e) by (nonlinear_arith)
        requires
            exact::size(p) <= 101real,
            e >= 0real,
    ;
    assert(100real * m / t == 100real * r) by (nonlinear_arith)
        requires
            r == m / t,
            t > 0real,
    ;
}

/// What is called comes with the share of its side.
pub proof fn law_calls_carry_the_share(votes: (u32, u32), min_votes: u32)
    ensures
        call_of(votes, min_votes) matches Some(call) ==> {
            let most = if call.prediction == Prediction::Up {
                votes.0
            } else {
                votes.1
            };
            let share = 100real * (most as int as real) / ((votes.0 + votes.1) as real);
            &&& call.rsi.is_finite()
            &&& exact::size(exact::exact(call.rsi) - share) * 1_000_000_000_000real <= 1real
        },
{
    if votes.0 + votes.1 > 0 {
        law_dominance_is_share(votes.0, votes.1);
    }
}

/// What the meters read after some candles and one more.
proof fn lemma_metered(meters: Meters, first: Seq<Candle>, candle: Candle)
    ensures
        meters.after(first).updated(candle) == meters.after(first.push(candle)),
    decreases first.len(),
{
    let all = first.push(candle);
    if first.len() == 0 {
        reveal_with_fuel(Meters::after, 2);
        assert(all.drop_first() =~= Seq::<Candle>::empty());
    } else {
        assert(all.drop_first() =~= first.drop_first().push(candle));
        lemma_metered(meters.updated(first[0]), first.drop_first(), candle);
    }
}

/// A fresh ensemble calls a candle that did not close where it opened, where enough rules vote on
/// what the last 160 candles and the meters over all of them show, and one color has more votes: up
/// for green, down for red.
pub proof fn law_ensembles_call<const N: usize>(
    ensemble: Ensemble,
    min_votes: u32,
    first: Seq<Candle>,
    candle: Candle,
    features: Seq<Feature>,
    rules: Seq<(bool, [Cond; N])>,
)
    requires
        ensemble.is_fresh(min_votes),
        candle.open.is_finite(),
        candle.close.is_finite(),
        rules.len() <= u32::MAX,
    ensures
        ({
            let all = first.push(candle);
            let feats = features::feats_of(
                features,
                candle::end_of(all, 160),
                Meters::fresh().after(all),
            );
            let (green, red) = (votes_for(feats, rules, true), votes_for(feats, rules, false));
            let heard = exact::exact(candle.open) != exact::exact(candle.close) && green + red >= min_votes;
            let called = ensemble.call_after(first, candle, features, rules);
            &&& called is Some && called.unwrap().prediction == Prediction::Up <==> heard && green
                > red
            &&& called is Some && called.unwrap().prediction == Prediction::Down <==> heard && red
                > green
        }),
{
    let none = Seq::<Candle>::empty();
    candle::law_window_is_the_end(none, first, 160);
    assert(none + first =~= first);
    candle::law_pushed_is_the_end(first, candle, 160);
    lemma_metered(Meters::fresh(), first, candle);
    let all = first.push(candle);
    let feats = features::feats_of(
        features,
        candle::end_of(all, 160),
        Meters::fresh().after(all),
    );
    law_no_more_votes_than_rules(feats, rules);
    exact::law_order_is_exact(candle.open, candle.close);
    let votes = (votes_for(feats, rules, true) as u32, votes_for(feats, rules, false) as u32);
    law_majority_is_called(votes, min_votes);
}

} // verus!
