//! Rules on five minute BTC candles, drawn from five years of them.

use vstd::prelude::*;
use crate::binary64::Binary64;
use crate::candle;
use crate::candle::Candle;
use crate::ensemble;
use crate::ensemble::{Cond, Ensemble, Op};
use crate::features::Feature;
use crate::microstructure::MicrostructureSnapshot;
use crate::strategy;
use crate::strategy::{Call, MicrostructureDecisionSummary, Signal, Strategy};

verus! {

/// The name of the strategy.
pub const STRATEGY_NAME: &'static str = "five_year_70pct_btc_5m_rules_71_min_votes_1";

/// The features that the conditions number.
pub const FEATURES: [Feature; 72] = [
    Feature::AbsorptionDown, Feature::AbsorptionUp, Feature::Atr14Pct, Feature::BbPctb,
    Feature::Body, Feature::BodyAbsPct, Feature::BodyRatio, Feature::BodySum3, Feature::BodySum6,
    Feature::BodySum12, Feature::BreakoutEnergy, Feature::Cci12, Feature::Cci24,
    Feature::ClosePosition, Feature::CloseZ12, Feature::CloseZ24, Feature::Compression12To72,
    Feature::DistSma12, Feature::DistSma24, Feature::DistVwap24, Feature::DistVwap72,
    Feature::DonchHigh12, Feature::DonchHigh24, Feature::DonchLow12, Feature::DonchLow24,
    Feature::FailedHigh12, Feature::FailedHigh24, Feature::FailedLow12, Feature::FailedLow24,
    Feature::FlipCount6, Feature::FlipCount12, Feature::GreenCount3, Feature::GreenCount6,
    Feature::GreenStreak, Feature::HaBody, Feature::HaBodyRatio, Feature::HaClosePosition,
    Feature::Hour, Feature::LowerWick, Feature::LowerWickBody, Feature::MacdHistPct,
    Feature::MacdPct, Feature::Mfi8, Feature::Mfi14, Feature::MinuteOfDay, Feature::RangeAtr14,
    Feature::RangePctZ24, Feature::ReclaimMid12, Feature::RedCount3, Feature::RedStreak,
    Feature::Ret1, Feature::Ret3, Feature::Ret6, Feature::Ret12, Feature::Rsi7, Feature::Rsi8,
    Feature::Rsi14, Feature::SignedVolumeRatio20, Feature::StochK12, Feature::StochK24,
    Feature::UpperWick, Feature::UpperWickBody, Feature::VolumeBodyEfficiency,
    Feature::VolumeRangeEfficiency, Feature::VolumeRatio20, Feature::VolumeZ24,
    Feature::VwapSlope24, Feature::VwapSlope72, Feature::Weekday, Feature::RedCount6,
    Feature::SameColorRatio12, Feature::SessionOverlapLondonUs,
];

/// The rules: a color, green where true, and the conditions on which it is voted for.
pub const RULES: [(bool, [Cond; 2]); 71] = [
    (false, [(Op::Ge, 3, 117_405_034_696, 0, 11), (Op::Ge, 63, 7_974_367_829, 0, 12)]),
    (true, [(Op::Le, 15, -2_492_345_474_495, 0, 12), (Op::Ge, 41, 938_501_478, 0, 12)]),
    (true, [(Op::Le, 11, -163_848_507_305_154, 0, 12), (Op::Ge, 62, 7_704_921_362, 0, 12)]),
    (true, [(Op::Le, 14, -2_092_705_762_683, 0, 12), (Op::Ge, 63, 11_732_866_886, 0, 12)]),
    (true, [(Op::Le, 11, -239_399_203_004_425, 0, 12), (Op::Ge, 63, 5_915_796_217, 0, 12)]),
    (false, [(Op::Ge, 59, 9_813_255_444_133, 0, 11), (Op::Ge, 16, 2_511_911_306_736, 0, 12)]),
    (true, [(Op::Le, 3, 84_109_929_238, 0, 12), (Op::Ge, 24, 24_230_497_416, 0, 12)]),
    (true, [(Op::Le, 3, -235_606_694_343, 0, 12), (Op::Ge, 66, 1_053_177_884, 0, 12)]),
    (false, [(Op::Ge, 3, 117_405_034_696, 0, 11), (Op::Ge, 63, 7_022_934_773, 0, 12)]),
    (false, [(Op::Ge, 14, 2_218_106_766_884, 0, 12), (Op::Le, 66, -3_994_395_698, 0, 12)]),
    (false, [(Op::Ge, 54, 79_187_266_351_359, 0, 12), (Op::Ge, 62, 7_704_921_362, 0, 12)]),
    (false, [(Op::Ge, 14, 2_589_440_698_101, 0, 12), (Op::Ge, 62, 5_051_760_632, 0, 12)]),
    (false, [(Op::Ge, 14, 2_218_106_766_884, 0, 12), (Op::Le, 22, -16_115_379_302, 0, 12)]),
    (true, [(Op::Le, 14, -2_220_922_553_819, 0, 12), (Op::Ge, 40, 404_314_765, 0, 12)]),
    (false, [(Op::Ge, 15, 2_475_880_255_608, 0, 12), (Op::Le, 67, -8_414_798_179, 0, 12)]),
    (false, [(Op::Ge, 55, 8_373_543_324_921, 0, 11), (Op::Le, 67, -4_060_985_168, 0, 12)]),
    (true, [(Op::Le, 14, -1_703_514_870_312, 0, 12), (Op::Ge, 18, 2_274_079_813, 0, 12)]),
    (true, [(Op::Le, 42, 4_701_970_326_377, 0, 12), (Op::Ge, 62, 5_051_760_632, 0, 12)]),
    (true, [(Op::Le, 59, 787_062_464_583, 0, 12), (Op::Ge, 41, 533_890_036, 0, 12)]),
    (true, [(Op::Le, 15, -2_307_627_154_465, 0, 12), (Op::Ge, 41, 1_241_223_785, 0, 12)]),
    (true, [(Op::Le, 14, -2_583_474_519_884, 0, 12), (Op::Le, 41, -5_856_406_184, 0, 12)]),
    (true, [(Op::Le, 15, -1_811_743_944_906, 0, 12), (Op::Ge, 11, -47_410_571_675_673, 0, 12)]),
    (true, [(Op::Le, 15, -1_811_743_944_906, 0, 12), (Op::Ge, 36, 665_950_478_981, 0, 12)]),
    (false, [
        (Op::Ge, 15, 306_306_070_625, 0, 11), (Op::Between, 20, -806_012_153, 1_120_083_964, 12),
    ]),
    (true, [(Op::Le, 54, 24_489_145_820_882, 0, 12), (Op::Ge, 66, 3_054_208_916, 0, 12)]),
    (true, [(Op::Le, 59, 3_994_763_574_046, 0, 12), (Op::Ge, 66, 2_288_868_958, 0, 12)]),
    (false, [(Op::Ge, 3, 1_060_875_802_045, 0, 12), (Op::Le, 35, 140_781_768_746, 0, 12)]),
    (true, [
        (Op::Le, 3, -174_372_887_633, 0, 12),
        (Op::Between, 45, 780_090_159_838, 978_325_233_895, 12),
    ]),
    (true, [(Op::Le, 12, -192_451_948_846_018, 0, 12), (Op::Le, 45, 456_323_118_123, 0, 12)]),
    (false, [(Op::Ge, 33, 6, 0, 0), (Op::Ge, 5, 7_864_217_465, 0, 12)]),
    (true, [(Op::Le, 14, -2_583_474_519_884, 0, 12), (Op::Ge, 36, 603_485_537_608, 0, 12)]),
    (false, [(Op::Ge, 3, 117_405_034_696, 0, 11), (Op::Le, 41, -1_221_253_105, 0, 12)]),
    (true, [(Op::Le, 50, -6_182_723_316, 0, 12), (Op::Le, 63, 1_159_553_433, 0, 12)]),
    (false, [(Op::Ge, 33, 6, 0, 0), (Op::Ge, 2, 7_385_036_543, 0, 12)]),
    (true, [(Op::Le, 34, -237_146_059, 0, 11), (Op::Ge, 56, 68_072_657_708_997, 0, 12)]),
    (false, [(Op::Ge, 33, 5, 0, 0), (Op::Ge, 62, 6_286_214_631, 0, 12)]),
    (true, [(Op::Le, 11, -239_399_203_004_425, 0, 12), (Op::Ge, 17, -850_585_157, 0, 12)]),
    (false, [(Op::Ge, 11, 239_826_401_687_036, 0, 12), (Op::Ge, 62, 3_626_385_089, 0, 12)]),
    (true, [(Op::Le, 55, 26_242_804_604_165, 0, 12), (Op::Ge, 41, 1_241_223_785, 0, 12)]),
    (true, [(Op::Le, 54, 18_416_929_648_717, 0, 12), (Op::Le, 69, 2, 0, 0)]),
    (true, [(Op::Le, 24, 53_579_844, 0, 12), (Op::Le, 20, -2_389_344_834, 0, 11)]),
    (false, [(Op::Ge, 12, 263_810_563_801_908, 0, 12), (Op::Le, 36, 403_524_161_953, 0, 12)]),
    (false, [(Op::Ge, 14, 2_589_440_698_101, 0, 12), (Op::Le, 20, -1_943_115_236, 0, 12)]),
    (false, [(Op::Ge, 42, 92_776_570_198_665, 0, 12), (Op::Le, 62, 851_762, 0, 12)]),
    (true, [
        (Op::Le, 15, -2_782_486_369_008, 0, 12),
        (Op::Between, 45, 780_090_159_838, 978_325_233_895, 12),
    ]),
    (false, [(Op::Ge, 14, 2_218_106_766_884, 0, 12), (Op::Le, 40, -401_474_502, 0, 12)]),
    (false, [(Op::Ge, 55, 73_931_490_170_639, 0, 12), (Op::Le, 46, -161_225_812_853, 0, 11)]),
    (true, [(Op::Le, 15, -2_782_486_369_008, 0, 12), (Op::Ge, 57, 2_515_643_159_476, 0, 12)]),
    (false, [(Op::Ge, 42, 92_776_570_198_665, 0, 12), (Op::Ge, 30, 10, 0, 0)]),
    (false, [(Op::Ge, 42, 9_433_132_107_599, 0, 11), (Op::Le, 23, 1_483_898_355, 0, 12)]),
    (true, [(Op::Le, 11, -209_954_494_058_912, 0, 12), (Op::Le, 67, -11_145_677_221, 0, 12)]),
    (true, [(Op::Le, 42, 4_701_970_326_377, 0, 12), (Op::Le, 1, -5_344_432_465_957, 0, 12)]),
    (false, [(Op::Ge, 15, 2_287_561_321_199, 0, 12), (Op::Le, 41, -898_726_231, 0, 12)]),
    (false, [(Op::Ge, 33, 6, 0, 0), (Op::Le, 42, 36_682_496_680_971, 0, 12)]),
    (true, [(Op::Le, 59, 10_434_588_873_737, 0, 12), (Op::Ge, 66, 4_008_177_104, 0, 12)]),
    (false, [(Op::Ge, 33, 4, 0, 0), (Op::Le, 13, 29_402_232_243, 0, 12)]),
    (true, [(Op::Le, 54, 11_592_876_344_486, 0, 12), (Op::Ge, 43, 34_134_452_110_302, 0, 12)]),
    (false, [(Op::Ge, 14, 2_082_088_491_926, 0, 12), (Op::Le, 41, -4_456_144_174, 0, 12)]),
    (false, [(Op::Ge, 42, 90_540_588_550_667, 0, 12), (Op::Le, 41, -2_801_477_945, 0, 12)]),
    (true, [(Op::Le, 14, -2_092_705_762_683, 0, 12), (Op::Ge, 41, 4_216_605_253, 0, 12)]),
    (false, [(Op::Ge, 3, 100_216_489_884, 0, 11), (Op::Le, 64, 317_214_773_127, 0, 12)]),
    (false, [(Op::Ge, 42, 9_433_132_107_599, 0, 11), (Op::Ge, 0, 2_783_514_361_784, 0, 11)]),
    (true, [(Op::Le, 3, 5_300_559_689, 0, 11), (Op::Ge, 26, 1, 0, 0)]),
    (true, [(Op::Le, 42, 7_868_824_198_036, 0, 12), (Op::Le, 35, 18_826_680_709, 0, 12)]),
    (true, [(Op::Le, 59, 3_627_163_843, 0, 12), (Op::Le, 66, -4_875_294_255, 0, 12)]),
    (false, [(Op::Ge, 15, 2_041_451_492_706, 0, 12), (Op::Le, 41, -1_221_253_105, 0, 12)]),
    (true, [(Op::Le, 14, -2_220_922_553_819, 0, 12), (Op::Ge, 25, 1, 0, 0)]),
    (false, [(Op::Ge, 11, 210_227_488_831_543, 0, 12), (Op::Le, 20, -4_814_800_565, 0, 12)]),
    (true, [(Op::Le, 54, 18_416_929_648_717, 0, 12), (Op::Le, 10, -930_443_606_059, 0, 12)]),
    (false, [
        (Op::Ge, 3, 117_405_034_696, 0, 11),
        (Op::Between, 45, 780_090_159_838, 978_325_233_895, 12),
    ]),
    (false, [(Op::Ge, 59, 94_302_371_417_231, 0, 12), (Op::Le, 51, -384_754_229, 0, 12)]),
];

/// Rules on five minute BTC candles, drawn from five years of them.
#[derive(Debug)]
pub struct FiveYear70PctBtcM5Rules71 {
    pub ensemble: Ensemble,
}

impl FiveYear70PctBtcM5Rules71 {
    pub fn new(min_votes: u32) -> (r: FiveYear70PctBtcM5Rules71)
        ensures
            r.well_formed(),
            r.ensemble.is_fresh(min_votes),
    {
        FiveYear70PctBtcM5Rules71 { ensemble: Ensemble::new(min_votes) }
    }
}

impl Strategy for FiveYear70PctBtcM5Rules71 {
    open spec fn well_formed(&self) -> bool {
        self.ensemble.well_formed()
    }

    open spec fn title(&self) -> Seq<char> {
        STRATEGY_NAME@
    }

    open spec fn answers(
        &self,
        first: Seq<Candle>,
        candle: Candle,
        signal: Option<Signal>,
    ) -> bool {
        strategy::signals(
            signal,
            self.ensemble.call_after(first, candle, FEATURES@, RULES@),
            candle.close_time_ms,
            STRATEGY_NAME@,
        )
    }

    open spec fn reads_snapshots(&self) -> bool {
        false
    }

    open spec fn answers_snapshot(
        &self,
        snapshot: MicrostructureSnapshot,
        signal: Option<Signal>,
    ) -> bool {
        signal is None
    }

    open spec fn has_considered(&self, snapshot: MicrostructureSnapshot) -> bool {
        true
    }

    open spec fn summary_is(&self, summary: Option<MicrostructureDecisionSummary>) -> bool {
        summary is None
    }

    open spec fn shown_rsi(&self) -> Option<Binary64> {
        self.ensemble.meters.rsi7.get()
    }

    open spec fn shown_series(&self) -> Option<bool> {
        candle::same_color_streak_of(self.ensemble.window@, 3)
    }

    open spec fn shown_atr(&self) -> Option<Binary64> {
        self.ensemble.meters.atr14.atr
    }

    open spec fn shown_extras(&self) -> Seq<char> {
        ensemble::votes_text(self.ensemble.last_votes, self.ensemble.min_votes)
    }

    fn name(&self) -> (r: &str) {
        STRATEGY_NAME
    }

    fn on_closed_candle(&mut self, candle: &Candle) -> (r: Option<Signal>)
        ensures
            final(self).ensemble.has_seen(old(self).ensemble, *candle),
            ensemble::decided(final(self).ensemble, *candle, FEATURES@, RULES@),
            strategy::signals(
                r,
                ensemble::call_of(final(self).ensemble.last_votes, old(self).ensemble.min_votes),
                candle.close_time_ms,
                STRATEGY_NAME@,
            ),
    {
        let call: Option<Call> = self.ensemble.decide(candle, &FEATURES, &RULES);
        proof {
            assert forall|first: Seq<Candle>, c: Candle, s: Option<Signal>| #[trigger]
                self.answers(first, c, s) == old(self).answers(seq![*candle] + first, c, s) by {
                ensemble::lemma_later(
                    old(self).ensemble,
                    self.ensemble,
                    *candle,
                    first,
                    c,
                    FEATURES@,
                    RULES@,
                );
            }
        }
        strategy::signal_for(call, candle.close_time_ms, STRATEGY_NAME)
    }

    fn warmup(&mut self, candle: &Candle)
        ensures
            final(self).ensemble.has_seen(old(self).ensemble, *candle),
            final(self).ensemble.last_votes == old(self).ensemble.last_votes,
    {
        self.ensemble.feed(candle);
        proof {
            assert forall|first: Seq<Candle>, c: Candle, s: Option<Signal>| #[trigger]
                self.answers(first, c, s) == old(self).answers(seq![*candle] + first, c, s) by {
                ensemble::lemma_later(
                    old(self).ensemble,
                    self.ensemble,
                    *candle,
                    first,
                    c,
                    FEATURES@,
                    RULES@,
                );
            }
        }
    }

    fn requires_microstructure(&self) -> (r: bool) {
        false
    }

    fn on_microstructure_snapshot(&mut self, snapshot: &MicrostructureSnapshot) -> (r: Option<
        Signal,
    >) {
        None
    }

    fn last_microstructure_decision_summary(&self) -> (r: Option<
        MicrostructureDecisionSummary,
    >) {
        None
    }

    fn current_rsi(&self) -> (r: Option<Binary64>) {
        self.ensemble.meters.rsi7.get()
    }

    fn current_series(&self) -> (r: Option<bool>) {
        candle::same_color_streak(&self.ensemble.window, 3)
    }

    fn current_atr(&self) -> (r: Option<Binary64>) {
        self.ensemble.meters.atr14.raw()
    }

    fn candle_log_extras(&self) -> (r: String) {
        ensemble::describe_votes(self.ensemble.last_votes, self.ensemble.min_votes)
    }
}

} // verus!
