//! Rules on the microstructure around fifteen minute candles of the ETHUSD perpetual.

use vstd::prelude::*;
use vstd::arithmetic::power::pow;
use vstd::string::*;
use crate::binary64::{law_counts_are_finite, law_one_times, law_over_itself, Binary64};
use crate::candle::Candle;
use crate::ensemble;
use crate::exact;
use crate::microstructure;
use crate::microstructure::{Feature, MicrostructureSnapshot};
use crate::strategy;
use crate::strategy::{Call, MicrostructureDecisionSummary, Prediction, Signal, Strategy};
use crate::text;

verus! {

/// The name of the strategy.
pub const STRATEGY_NAME: &'static str = "ethusd_perp_coinm_15m_microstructure_mixed_13";

/// How many votes the log asks for.
pub const MIN_VOTES: u32 = 1;

/// How a condition compares a feature with its threshold.
#[derive(Clone, Copy, Debug, PartialEq, Eq, Structural)]
pub enum Operator {
    GreaterOrEqual,
    LessOrEqual,
    Equal,
    /// Not at all: fills the slots that a rule leaves free.
    Always,
}

/// A condition: the comparison, the feature, and the threshold in units of the last of so many
/// decimals.
pub type Condition = (Operator, Feature, i64, u8);

/// Fills a slot that a rule leaves free.
pub const FREE: Condition = (Operator::Always, Feature::SignalReturn6, 0, 0);

/// The rules: a color, green where true, and the conditions on which it is voted for.
pub const RULES: [(bool, [Condition; 6]); 25] = [
    (true, [
        (Operator::LessOrEqual, Feature::SignalEma8Ema21Atr, -9_558_222_889_900_208, 16),
        (Operator::LessOrEqual, Feature::FutBtcusdtM1GreenRatio, 3_333_333_432_674_408, 16),
        (Operator::LessOrEqual, Feature::FutEthusdtM1BlockReturn, -16_062_239_883_467_555, 19),
        (Operator::LessOrEqual, Feature::FutEthusdtM1CloseLocation, 9_973_753_243_684_769, 17),
        FREE, FREE,
    ]),
    (true, [
        (Operator::LessOrEqual, Feature::SignalCloseEma8Atr, -5_925_500_869_750_976, 16),
        (
            Operator::LessOrEqual,
            Feature::TargetEthusdPerpM1SegmentTakerImbalance2,
            -14_666_366_577_148_438,
            17,
        ),
        (
            Operator::LessOrEqual,
            Feature::FutBtcusdtM1SegmentReturnAcceleration,
            -17_797_600_012_272_596,
            19,
        ),
        (
            Operator::LessOrEqual,
            Feature::FutEthusdtM1SegmentTakerImbalance2,
            -28_041_884_303_092_957,
            17,
        ),
        (
            Operator::LessOrEqual,
            Feature::FutEthusdtM1SegmentTakerAcceleration,
            -4_976_053_386_926_651,
            16,
        ),
        FREE,
    ]),
    (true, [
        (Operator::LessOrEqual, Feature::SignalGreenRatio3, 0, 0),
        (Operator::LessOrEqual, Feature::FutEthusdtM1MinuteReturnLag1, -15_310_485_614_463_687, 19),
        FREE, FREE, FREE, FREE,
    ]),
    (true, [
        (Operator::LessOrEqual, Feature::FutBtcusdtM1MinuteReturnLag2, -1_328_605_052_549_392, 18),
        (
            Operator::LessOrEqual,
            Feature::FutBtcusdtM1SegmentTakerImbalance2,
            -3_259_851_783_514_023,
            16,
        ),
        FREE, FREE, FREE, FREE,
    ]),
    (true, [
        (Operator::LessOrEqual, Feature::MarkBtcusdtCloseLocation, 7_163_261_622_190_475, 17),
        (Operator::LessOrEqual, Feature::OiEthusdtValueChange6, -13_785_077_957_436_442, 18),
        FREE, FREE, FREE, FREE,
    ]),
    (true, [
        (Operator::LessOrEqual, Feature::SignalTransitionRatio12, 3_333_333_432_674_408, 16),
        (Operator::LessOrEqual, Feature::FutBtcusdtM1SegmentReturn2, -302_238_785_661_757, 17),
        FREE, FREE, FREE, FREE,
    ]),
    (true, [
        (Operator::LessOrEqual, Feature::TargetEthusdPerpM1BlockReturn, -1_649_390_789_680_183, 18),
        (Operator::LessOrEqual, Feature::FutBtcusdtM1MinuteTakerLag2, -5_129_081_308_841_705, 16),
        (Operator::LessOrEqual, Feature::FutEthusdtM1SegmentReturn2, -25_398_905_854_672_194, 19),
        FREE, FREE, FREE,
    ]),
    (true, [
        (Operator::LessOrEqual, Feature::SignalEma8Ema21Atr, -9_558_222_889_900_208, 16),
        (Operator::LessOrEqual, Feature::FutBtcusdtM1SegmentReturn2, -302_238_785_661_757, 17),
        FREE, FREE, FREE, FREE,
    ]),
    (true, [
        (Operator::LessOrEqual, Feature::SignalGreenRatio12, 25, 2),
        (
            Operator::LessOrEqual,
            Feature::TargetEthusdPerpM1MinuteReturnLag2,
            -168_620_451_586_321,
            17,
        ),
        FREE, FREE, FREE, FREE,
    ]),
    (true, [
        (Operator::LessOrEqual, Feature::SignalStoch14, 13_061_938_285_827_637, 15),
        (Operator::LessOrEqual, Feature::FutEthusdtM1MinuteReturnLag3, -16_388_711_519_539_356, 19),
        FREE, FREE, FREE, FREE,
    ]),
    (true, [
        (Operator::Equal, Feature::TargetEthusdPerpM1GreenCount, 5, 0),
        (Operator::LessOrEqual, Feature::OiEthusdtValueChange6, -13_785_077_957_436_442, 18),
        FREE, FREE, FREE, FREE,
    ]),
    (false, [
        (Operator::LessOrEqual, Feature::SignalTransitionRatio3, 0, 0),
        (Operator::GreaterOrEqual, Feature::SignalGreenRatio6, 8_333_333_134_651_184, 16),
        (Operator::GreaterOrEqual, Feature::SignalCloseEma8Atr, 5_562_092_304_229_737, 16),
        (
            Operator::GreaterOrEqual,
            Feature::TargetEthusdPerpM1SegmentReturn2,
            8_606_369_374_319_911,
            19,
        ),
        (Operator::GreaterOrEqual, Feature::FutEthusdtM1SegmentReturn2, 8_581_436_122_767_627, 19),
        (
            Operator::GreaterOrEqual,
            Feature::FutEthusdtM1SegmentTakerAcceleration,
            40_127_360_820_770_264,
            17,
        ),
    ]),
    (false, [
        (Operator::GreaterOrEqual, Feature::SignalGreenRatio6, 8_333_333_134_651_184, 16),
        (Operator::GreaterOrEqual, Feature::FutBtcusdtM1CloseLocation, 8_853_974_342_346_191, 16),
        (Operator::GreaterOrEqual, Feature::OiEthusdtValueChange6, 8_817_994_501_441_733, 18),
        FREE, FREE, FREE,
    ]),
    (false, [
        (Operator::GreaterOrEqual, Feature::SignalGreenRatio6, 8_333_333_134_651_184, 16),
        (Operator::GreaterOrEqual, Feature::FutBtcusdtM1CloseLocation, 8_853_974_342_346_191, 16),
        (
            Operator::GreaterOrEqual,
            Feature::FutBtcusdtM1SegmentReturnAcceleration,
            11_242_945_911_362_767,
            19,
        ),
        (Operator::GreaterOrEqual, Feature::FutEthusdtM1SegmentReturn2, 8_581_436_122_767_627, 19),
        (Operator::GreaterOrEqual, Feature::OiEthusdtValueChange12, 74_382_608_756_422_995, 19),
        FREE,
    ]),
    (false, [
        (
            Operator::GreaterOrEqual,
            Feature::FutEthusdtM1SegmentTakerImbalance2,
            2_779_318_690_299_988,
            16,
        ),
        (Operator::GreaterOrEqual, Feature::MarkEthusdtReturn3, 7_906_512_822_955_845, 18),
        FREE, FREE, FREE, FREE,
    ]),
    (false, [
        (
            Operator::GreaterOrEqual,
            Feature::FutEthusdtM1SegmentReturnAcceleration,
            4_034_372_977_912_426,
            18,
        ),
        (Operator::GreaterOrEqual, Feature::MarkEthusdtReturn1, 6_600_463_879_294_692, 18),
        FREE, FREE, FREE, FREE,
    ]),
    (false, [
        (Operator::GreaterOrEqual, Feature::SignalReturn6, 11_234_910_413_622_857, 18),
        (Operator::GreaterOrEqual, Feature::SignalGreenRatio3, 1, 0),
        (Operator::GreaterOrEqual, Feature::FutBtcusdtM1CloseLocation, 8_853_974_342_346_191, 16),
        FREE, FREE, FREE,
    ]),
    (false, [
        (Operator::GreaterOrEqual, Feature::SignalReturn6, 11_234_910_413_622_857, 18),
        (Operator::GreaterOrEqual, Feature::FutEthusdtM1SegmentReturn2, 36_720_656_789_839_268, 19),
        FREE, FREE, FREE, FREE,
    ]),
    (false, [
        (Operator::GreaterOrEqual, Feature::SignalReturn6, 11_234_910_413_622_857, 18),
        (Operator::GreaterOrEqual, Feature::FutBtcusdtM1CloseLocation, 938_892_275_094_986, 15),
        FREE, FREE, FREE, FREE,
    ]),
    (false, [
        (Operator::GreaterOrEqual, Feature::SignalReturn6, 11_234_910_413_622_857, 18),
        (
            Operator::GreaterOrEqual,
            Feature::TargetEthusdPerpM1SegmentTakerImbalance1,
            2_385_961_264_371_872,
            16,
        ),
        (Operator::GreaterOrEqual, Feature::FutEthusdtM1SegmentReturn2, 8_581_436_122_767_627, 19),
        FREE, FREE, FREE,
    ]),
    (false, [
        (Operator::GreaterOrEqual, Feature::SignalCloseEma8Atr, 5_562_092_304_229_737, 16),
        (
            Operator::GreaterOrEqual,
            Feature::TargetEthusdPerpM1SegmentTakerImbalance1,
            2_385_961_264_371_872,
            16,
        ),
        (Operator::GreaterOrEqual, Feature::IndexEthusdtReturn1, 6_568_198_488_093_911, 18),
        FREE, FREE, FREE,
    ]),
    (false, [
        (Operator::GreaterOrEqual, Feature::SignalStoch14, 7_811_871_032_714_843, 14),
        (
            Operator::GreaterOrEqual,
            Feature::TargetEthusdPerpM1SegmentTakerImbalance1,
            2_385_961_264_371_872,
            16,
        ),
        (
            Operator::GreaterOrEqual,
            Feature::TargetEthusdPerpM1SegmentReturn2,
            8_606_369_374_319_911,
            19,
        ),
        (Operator::GreaterOrEqual, Feature::MarkEthusdtReturn3, 7_906_512_822_955_845, 18),
        FREE, FREE,
    ]),
    (false, [
        (Operator::GreaterOrEqual, Feature::SignalReturn12, 1_619_062_013_924_122, 17),
        (
            Operator::GreaterOrEqual,
            Feature::FutBtcusdtM1MinuteReturnLag3,
            13_222_055_276_855_826,
            19,
        ),
        FREE, FREE, FREE, FREE,
    ]),
    (false, [
        (Operator::GreaterOrEqual, Feature::SignalStoch14, 7_811_871_032_714_843, 14),
        (Operator::Equal, Feature::SignalBreakoutHigh20, 1, 0),
        (
            Operator::GreaterOrEqual,
            Feature::TargetEthusdPerpM1SegmentReturn2,
            37_076_674_634_590_745,
            19,
        ),
        (
            Operator::GreaterOrEqual,
            Feature::FutBtcusdtM1MinuteReturnLag3,
            13_222_055_276_855_826,
            19,
        ),
        FREE, FREE,
    ]),
    (false, [
        (Operator::Equal, Feature::SignalBreakoutHigh20, 1, 0),
        (
            Operator::GreaterOrEqual,
            Feature::FutBtcusdtM1MinuteReturnLag3,
            13_222_055_276_855_826,
            19,
        ),
        (Operator::GreaterOrEqual, Feature::FutEthusdtM1SegmentReturn2, 36_720_656_789_839_268, 19),
        FREE, FREE, FREE,
    ]),
];

/// Whether a condition holds of a snapshot; it does not where the feature is missing.
pub open spec fn matches_of(condition: Condition, values: Seq<(Feature, Binary64)>) -> bool {
    let threshold = ensemble::threshold_of(condition.2, condition.3);
    condition.0 == Operator::Always || match microstructure::value_of(values, condition.1) {
        Some(value) => match condition.0 {
            Operator::GreaterOrEqual => threshold.at_most(value),
            Operator::LessOrEqual => value.at_most(threshold),
            Operator::Equal => value.equals(threshold),
            Operator::Always => true,
        },
        None => false,
    }
}

pub fn condition_matches(condition: &Condition, snapshot: &MicrostructureSnapshot) -> (r: bool)
    ensures
        r == matches_of(*condition, snapshot.values@),
{
    let threshold: Binary64 = ensemble::threshold(condition.2, condition.3);
    match condition.0 {
        Operator::Always => true,
        Operator::GreaterOrEqual => match snapshot.value(condition.1) {
            Some(value) => threshold.at_most(value),
            None => false,
        },
        Operator::LessOrEqual => match snapshot.value(condition.1) {
            Some(value) => value.at_most(threshold),
            None => false,
        },
        Operator::Equal => match snapshot.value(condition.1) {
            Some(value) => value.equals(threshold),
            None => false,
        },
    }
}

/// Whether a rule is active: all its conditions hold.
pub open spec fn active_of(conditions: Seq<Condition>, values: Seq<(Feature, Binary64)>) -> bool {
    forall|i: int| 0 <= i < conditions.len() ==> matches_of(#[trigger] conditions[i], values)
}

fn is_active(conditions: &[Condition; 6], snapshot: &MicrostructureSnapshot) -> (r: bool)
    ensures
        r == active_of(conditions@, snapshot.values@),
{
    let mut i: usize = 0;
    while i < 6
        invariant
            i <= 6,
            conditions@.len() == 6,
            forall|j: int|
                0 <= j < i ==> matches_of(#[trigger] conditions@[j], snapshot.values@),
        decreases 6 - i,
    {
        if !condition_matches(&conditions[i], snapshot) {
            assert(!matches_of(conditions@[i as int], snapshot.values@));
            return false;
        }
        i = i + 1;
    }
    true
}

/// The name of rule number `i`, counted from 0.
pub open spec fn rule_name_of(i: int) -> Seq<char> {
    STRATEGY_NAME@ + "_rule_"@ + text::digits(i + 1)
}

fn rule_name(i: usize) -> (r: String)
    requires
        i < usize::MAX,
    ensures
        r@ == rule_name_of(i as int),
{
    let mut r: String = String::from_str(STRATEGY_NAME);
    r.append("_rule_");
    text::append_number(&mut r, (i + 1) as u128);
    r
}

/// The names of the active ones among some rules, in their order.
pub open spec fn active_names(
    rules: Seq<(bool, [Condition; 6])>,
    values: Seq<(Feature, Binary64)>,
) -> Seq<Seq<char>>
    decreases rules.len(),
{
    if rules.len() == 0 {
        Seq::empty()
    } else {
        let others = active_names(rules.drop_last(), values);
        if active_of(rules.last().1@, values) {
            others.push(rule_name_of(rules.len() - 1))
        } else {
            others
        }
    }
}

/// How many active rules vote for a color.
pub open spec fn active_votes(
    rules: Seq<(bool, [Condition; 6])>,
    values: Seq<(Feature, Binary64)>,
    green: bool,
) -> nat
    decreases rules.len(),
{
    if rules.len() == 0 {
        0
    } else {
        active_votes(rules.drop_last(), values, green) + (if rules.last().0 == green && active_of(
            rules.last().1@,
            values,
        ) {
            1nat
        } else {
            0
        })
    }
}

/// Texts in a row, with a comma between any two.
pub open spec fn joined_of(names: Seq<Seq<char>>) -> Seq<char>
    decreases names.len(),
{
    if names.len() == 0 {
        Seq::empty()
    } else if names.len() == 1 {
        names[0]
    } else {
        joined_of(names.drop_last()) + ","@ + names.last()
    }
}

fn joined(names: &Vec<String>) -> (r: String)
    ensures
        r@ == joined_of(strategy::texts(names@)),
{
    let mut r: String = String::new();
    let mut i: usize = 0;
    assert(strategy::texts(names@.take(0)) =~= Seq::<Seq<char>>::empty());
    while i < names.len()
        invariant
            i <= names@.len(),
            r@ == joined_of(strategy::texts(names@.take(i as int))),
        decreases names@.len() - i,
    {
        if i > 0 {
            r.append(",");
        }
        r.append(names[i].as_str());
        i = i + 1;
        let ghost fewer = strategy::texts(names@.take(i - 1));
        let ghost all = strategy::texts(names@.take(i as int));
        assert(all.drop_last() =~= fewer);
        assert(r@ =~= joined_of(all));
    }
    assert(names@.take(i as int) =~= names@);
    r
}

/// What the votes of the active rules come to: a color that nobody votes against.
pub open spec fn verdict_of(green: nat, red: nat) -> Option<Prediction> {
    if green > 0 && red == 0 {
        Some(Prediction::Up)
    } else if green == 0 && red > 0 {
        Some(Prediction::Down)
    } else {
        None
    }
}

/// Fades and follows of the ETHUSD perpetual on its microstructure.
#[derive(Debug)]
pub struct EthUsdPerpMicrostructureMixed13 {
    pub last_votes: (u32, u32),
    pub last_active_rules: String,
    pub last_decision: Option<MicrostructureDecisionSummary>,
}

impl EthUsdPerpMicrostructureMixed13 {
    /// Nothing looked at yet.
    pub open spec fn is_fresh(&self) -> bool {
        &&& self.last_votes == (0u32, 0u32)
        &&& self.last_active_rules@ == Seq::<char>::empty()
        &&& self.last_decision is None
    }

    /// Whether this is what remains of a look at a snapshot.
    pub open spec fn has_looked_at(&self, snapshot: MicrostructureSnapshot) -> bool {
        let green = active_votes(RULES@, snapshot.values@, true);
        let red = active_votes(RULES@, snapshot.values@, false);
        let names = active_names(RULES@, snapshot.values@);
        match snapshot.gap {
            Some(gap) => {
                let reason = "snapshot_incomplet: "@ + gap@;
                &&& self.last_votes == (0u32, 0u32)
                &&& self.last_active_rules@ == reason
                &&& self.last_decision matches Some(d) && {
                    &&& d.prediction is None
                    &&& d.green_votes == 0
                    &&& d.red_votes == 0
                    &&& strategy::texts(d.active_rules@) == seq![reason]
                }
            },
            None => {
                &&& (self.last_votes.0 as nat, self.last_votes.1 as nat) == (green, red)
                &&& self.last_active_rules@ == joined_of(names)
                &&& self.last_decision matches Some(d) && {
                    &&& d.prediction == verdict_of(green, red)
                    &&& d.green_votes == green
                    &&& d.red_votes == red
                    &&& strategy::texts(d.active_rules@) == names
                }
            },
        }
    }

    pub fn new() -> (r: EthUsdPerpMicrostructureMixed13)
        ensures
            r.well_formed(),
            r.is_fresh(),
    {
        EthUsdPerpMicrostructureMixed13 {
            last_votes: (0, 0),
            last_active_rules: String::new(),
            last_decision: None,
        }
    }

    /// Looks at a snapshot: no call on an incomplete one, and none against a dissenting vote.
    pub fn evaluate(&mut self, snapshot: &MicrostructureSnapshot) -> (r: Option<Signal>)
        ensures
            final(self).well_formed(),
            final(self).has_looked_at(*snapshot),
            strategy::signals(
                r,
                call_of(*snapshot),
                snapshot.candle.close_time_ms,
                STRATEGY_NAME@,
            ),
    {
        match &snapshot.gap {
            Some(gap) => {
                let mut reason: String = String::from_str("snapshot_incomplet: ");
                reason.append(gap.as_str());
                let mut active_rules: Vec<String> = Vec::new();
                active_rules.push(reason.clone());
                assert(strategy::texts(active_rules@) =~= seq![reason@]);
                self.last_votes = (0, 0);
                self.last_active_rules = reason;
                self.last_decision = Some(
                    MicrostructureDecisionSummary {
                        prediction: None,
                        green_votes: 0,
                        red_votes: 0,
                        active_rules,
                    },
                );
                return None;
            },
            None => {},
        }
        let mut green: u32 = 0;
        let mut red: u32 = 0;
        let mut names: Vec<String> = Vec::new();
        let mut i: usize = 0;
        assert(strategy::texts(names@) =~= Seq::<Seq<char>>::empty());
        while i < 25
            invariant
                i <= 25,
                RULES@.len() == 25,
                green + red <= i,
                green == active_votes(RULES@.take(i as int), snapshot.values@, true),
                red == active_votes(RULES@.take(i as int), snapshot.values@, false),
                strategy::texts(names@) == active_names(RULES@.take(i as int), snapshot.values@),
            decreases 25 - i,
        {
            let rule: (bool, [Condition; 6]) = RULES[i];
            let ghost before = names@;
            assert(RULES@.take(i + 1).drop_last() =~= RULES@.take(i as int));
            assert(RULES@.take(i + 1).last() == rule);
            if is_active(&rule.1, snapshot) {
                names.push(rule_name(i));
                assert(strategy::texts(names@) =~= strategy::texts(before).push(
                    rule_name_of(i as int),
                ));
                if rule.0 {
                    green = green + 1;
                } else {
                    red = red + 1;
                }
            }
            i = i + 1;
        }
        assert(RULES@.take(25) =~= RULES@);
        let prediction: Option<Prediction> = if green > 0 && red == 0 {
            Some(Prediction::Up)
        } else if green == 0 && red > 0 {
            Some(Prediction::Down)
        } else {
            None
        };
        self.last_votes = (green, red);
        self.last_active_rules = joined(&names);
        self.last_decision = Some(
            MicrostructureDecisionSummary {
                prediction,
                green_votes: green,
                red_votes: red,
                active_rules: names,
            },
        );
        let call: Option<Call> = match prediction {
            Some(prediction) => Some(Call { prediction, rsi: ensemble::dominance(green, red) }),
            None => None,
        };
        strategy::signal_for(call, snapshot.candle.close_time_ms, STRATEGY_NAME)
    }
}

/// What the strategy calls on a snapshot.
pub open spec fn call_of(snapshot: MicrostructureSnapshot) -> Option<Call> {
    let green = active_votes(RULES@, snapshot.values@, true);
    let red = active_votes(RULES@, snapshot.values@, false);
    if snapshot.gap is Some {
        None
    } else {
        match verdict_of(green, red) {
            Some(prediction) => Some(
                Call { prediction, rsi: ensemble::dominance_of(green as u32, red as u32) },
            ),
            None => None,
        }
    }
}

/// Where rules of both colors are active, or a snapshot is not complete, nothing is called; where
/// only rules of one color are, that color is.
pub proof fn law_dissent_is_silence(snapshot: MicrostructureSnapshot)
    ensures
        ({
            let green = active_votes(RULES@, snapshot.values@, true);
            let red = active_votes(RULES@, snapshot.values@, false);
            &&& snapshot.gap is Some || (green > 0 && red > 0) || (green == 0 && red == 0)
                <==> call_of(snapshot) is None
            &&& call_of(snapshot) matches Some(call) ==> (call.prediction == Prediction::Up
                <==> green > 0) && (call.prediction == Prediction::Down <==> red > 0)
        }),
{
}

/// There is one name to each active rule, and each active rule votes once.
proof fn lemma_names_and_votes(
    rules: Seq<(bool, [Condition; 6])>,
    values: Seq<(Feature, Binary64)>,
)
    ensures
        active_names(rules, values).len() == active_votes(rules, values, true) + active_votes(
            rules,
            values,
            false,
        ),
        active_names(rules, values).len() <= rules.len(),
    decreases rules.len(),
{
    if rules.len() > 0 {
        lemma_names_and_votes(rules.drop_last(), values);
    }
}

/// After a look at a complete snapshot, whatever came before, the summary names as many rules as
/// there are votes, green and red, and predicts what nobody votes against; and what is called has
/// that prediction and a share of 100.
pub proof fn law_calls_are_unanimous(
    strategy: EthUsdPerpMicrostructureMixed13,
    snapshot: MicrostructureSnapshot,
)
    requires
        strategy.has_looked_at(snapshot),
        snapshot.gap is None,
    ensures
        strategy.last_decision matches Some(d) && {
            &&& d.active_rules@.len() == d.green_votes + d.red_votes
            &&& d.prediction == Some(Prediction::Up) <==> d.green_votes > 0 && d.red_votes == 0
            &&& d.prediction == Some(Prediction::Down) <==> d.red_votes > 0 && d.green_votes == 0
            &&& match call_of(snapshot) {
                Some(call) => d.prediction == Some(call.prediction) && call.rsi == Binary64::count(
                    100,
                ),
                None => d.prediction is None,
            }
        },
{
    let values = snapshot.values@;
    let green = active_votes(RULES@, values, true);
    let red = active_votes(RULES@, values, false);
    lemma_names_and_votes(RULES@, values);
    let d = strategy.last_decision.unwrap();
    assert(strategy::texts(d.active_rules@).len() == d.active_rules@.len());
    if call_of(snapshot) is Some {
        let most = Binary64::count((green + red) as u64);
        law_counts_are_finite((green + red) as u64);
        law_counts_are_finite(100);
        law_over_itself(most);
        law_one_times(Binary64::count(100));
    }
}

/// After a look at an incomplete snapshot there are no votes and no prediction, and one reason stands
/// in place of the rules: what is missing.
pub proof fn law_gaps_are_told(
    strategy: EthUsdPerpMicrostructureMixed13,
    snapshot: MicrostructureSnapshot,
    gap: String,
)
    requires
        strategy.has_looked_at(snapshot),
        snapshot.gap == Some(gap),
    ensures
        call_of(snapshot) is None,
        strategy.last_votes == (0u32, 0u32),
        strategy.last_active_rules@ == "snapshot_incomplet: "@ + gap@,
        strategy.last_decision matches Some(d) && {
            &&& d.prediction is None
            &&& d.green_votes == 0
            &&& d.red_votes == 0
            &&& d.active_rules@.len() == 1
            &&& d.active_rules@[0]@ == "snapshot_incomplet: "@ + gap@
        },
{
    let d = strategy.last_decision.unwrap();
    let told = strategy::texts(d.active_rules@);
    assert(told.len() == d.active_rules@.len());
    assert(told[0] == d.active_rules@[0]@);
}

/// What conditions compare is the number read last for their feature, as an exact value, with the
/// threshold: at least it, at most it, or equal to it and to nothing else. Where no number was read,
/// and on NaN, none is met.
pub proof fn law_conditions_compare_values(
    feature: Feature,
    places: i64,
    decimals: u8,
    values: Seq<(Feature, Binary64)>,
)
    requires
        decimals <= 19,
    ensures
        ({
            let threshold = exact::exact(ensemble::threshold_of(places, decimals));
            let at_least = matches_of(
                (Operator::GreaterOrEqual, feature, places, decimals),
                values,
            );
            let at_most = matches_of((Operator::LessOrEqual, feature, places, decimals), values);
            let equal = matches_of((Operator::Equal, feature, places, decimals), values);
            &&& matches_of((Operator::Always, feature, places, decimals), values)
            &&& equal <==> at_least && at_most
            &&& match microstructure::value_of(values, feature) {
                Some(v) => {
                    &&& v.is_finite() ==> (at_least <==> threshold <= exact::exact(v))
                    &&& v.is_finite() ==> (at_most <==> exact::exact(v) <= threshold)
                    &&& v.is_finite() ==> (equal <==> exact::exact(v) == threshold)
                    &&& v.is_nan() ==> !at_least && !at_most
                    &&& v.is_infinite() ==> at_least == !v.negative() && at_most == v.negative()
                },
                None => !at_least && !at_most && !equal,
            }
            &&& decimals == 0 && -0x20_0000_0000_0000 < places < 0x20_0000_0000_0000 ==> threshold
                == places as int as real
            &&& exact::rounds_to(
                ensemble::threshold_of(places, decimals),
                places as int as real / pow(10, decimals as nat) as real,
            )
        }),
{
    ensemble::law_threshold_is_decimal(places, decimals);
    let t = ensemble::threshold_of(places, decimals);
    match microstructure::value_of(values, feature) {
        Some(v) => {
            if v.is_finite() {
                exact::law_order_is_exact(v, t);
                exact::law_order_is_exact(t, v);
            }
        },
        None => {},
    }
}

/// A rule is active exactly where all its conditions are met.
pub proof fn law_rules_need_all_conditions(
    conditions: Seq<Condition>,
    values: Seq<(Feature, Binary64)>,
)
    ensures
        active_of(conditions, values) <==> forall|i: int|
            0 <= i < conditions.len() ==> #[trigger] matches_of(conditions[i], values),
{
    if active_of(conditions, values) {
        assert forall|i: int| 0 <= i < conditions.len() implies #[trigger] matches_of(
            conditions[i],
            values,
        ) by {
            assert(matches_of(conditions[i], values));
        }
    }
}

/// One rule more adds one vote for its color and its name where it is active, and nothing otherwise.
pub proof fn law_each_active_rule_votes_once(
    rules: Seq<(bool, [Condition; 6])>,
    rule: (bool, [Condition; 6]),
    values: Seq<(Feature, Binary64)>,
)
    ensures
        ({
            let more = rules.push(rule);
            let active = active_of(rule.1@, values);
            &&& active_votes(Seq::empty(), values, true) == 0
            &&& active_votes(Seq::empty(), values, false) == 0
            &&& active_names(Seq::empty(), values).len() == 0
            &&& !active ==> active_votes(more, values, true) == active_votes(rules, values, true)
                && active_votes(more, values, false) == active_votes(rules, values, false)
                && active_names(more, values) == active_names(rules, values)
            &&& active ==> active_votes(more, values, rule.0) == active_votes(rules, values, rule.0)
                + 1 && active_votes(more, values, !rule.0) == active_votes(rules, values, !rule.0)
                && active_names(more, values) == active_names(rules, values).push(
                STRATEGY_NAME@ + "_rule_"@ + text::digits(rules.len() as int + 1),
            )
        }),
{
    assert(rules.push(rule).drop_last() =~= rules);
}

impl Default for EthUsdPerpMicrostructureMixed13 {
    fn default() -> (r: EthUsdPerpMicrostructureMixed13)
        ensures
            r.well_formed(),
            r.is_fresh(),
    {
        EthUsdPerpMicrostructureMixed13::new()
    }
}

impl Strategy for EthUsdPerpMicrostructureMixed13 {
    open spec fn well_formed(&self) -> bool {
        self.last_votes.0 + self.last_votes.1 <= 25
    }

    open spec fn title(&self) -> Seq<char> {
        STRATEGY_NAME@
    }

    open spec fn answers(
        &self,
        first: Seq<Candle>,
        candle: Candle,
        signal: Option<Signal>,
    ) -> bool {
        signal is None
    }

    open spec fn reads_snapshots(&self) -> bool {
        true
    }

    open spec fn answers_snapshot(
        &self,
        snapshot: MicrostructureSnapshot,
        signal: Option<Signal>,
    ) -> bool {
        strategy::signals(
            signal,
            call_of(snapshot),
            snapshot.candle.close_time_ms,
            STRATEGY_NAME@,
        )
    }

    open spec fn has_considered(&self, snapshot: MicrostructureSnapshot) -> bool {
        self.has_looked_at(snapshot)
    }

    open spec fn summary_is(&self, summary: Option<MicrostructureDecisionSummary>) -> bool {
        match (summary, self.last_decision) {
            (Some(summary), Some(decision)) => summary.same(decision),
            (None, None) => true,
            _ => false,
        }
    }

    open spec fn shown_rsi(&self) -> Option<Binary64> {
        None
    }

    open spec fn shown_series(&self) -> Option<bool> {
        None
    }

    open spec fn shown_atr(&self) -> Option<Binary64> {
        None
    }

    open spec fn shown_extras(&self) -> Seq<char> {
        ensemble::votes_text(self.last_votes, MIN_VOTES) + (
        if self.last_active_rules@.len() == 0 {
            Seq::empty()
        } else {
            " | active="@ + self.last_active_rules@
        })
    }

    fn name(&self) -> (r: &str) {
        STRATEGY_NAME
    }

    fn warmup(&mut self, candle: &Candle)
        ensures
            *final(self) == *old(self),
    {
    }

    fn on_closed_candle(&mut self, candle: &Candle) -> (r: Option<Signal>)
        ensures
            r is None,
            *final(self) == *old(self),
    {
        None
    }

    fn requires_microstructure(&self) -> (r: bool) {
        true
    }

    fn on_microstructure_snapshot(&mut self, snapshot: &MicrostructureSnapshot) -> (r: Option<
        Signal,
    >) {
        self.evaluate(snapshot)
    }

    fn last_microstructure_decision_summary(&self) -> (r: Option<
        MicrostructureDecisionSummary,
    >) {
        match &self.last_decision {
            Some(d) => Some(d.duplicate()),
            None => None,
        }
    }

    fn current_rsi(&self) -> (r: Option<Binary64>) {
        None
    }

    fn current_series(&self) -> (r: Option<bool>) {
        None
    }

    fn current_atr(&self) -> (r: Option<Binary64>) {
        None
    }

    fn candle_log_extras(&self) -> (r: String) {
        let mut r: String = ensemble::describe_votes(self.last_votes, MIN_VOTES);
        if self.last_active_rules.as_str().unicode_len() > 0 {
            r.append(" | active=");
            r.append(self.last_active_rules.as_str());
        }
        r
    }
}

} // verus!
