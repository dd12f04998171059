//! Rules on five minute ETH candles.

use vstd::prelude::*;
use crate::binary64::Binary64;
use crate::candle;
use crate::candle::Candle;
use crate::ensemble;
use crate::ensemble::{ANY, Cond, Ensemble, Op};
use crate::features::Feature;
use crate::microstructure::MicrostructureSnapshot;
use crate::strategy;
use crate::strategy::{Call, MicrostructureDecisionSummary, Signal, Strategy};

verus! {

/// The name of the strategy.
pub const STRATEGY_NAME: &'static str = "eth_5m_rules_542_min_votes_1";

/// The features that the conditions number.
pub const FEATURES: [Feature; 81] = [
    Feature::AbsorptionDown, Feature::AbsorptionUp, Feature::Atr14Pct, Feature::Atr72Pct,
    Feature::BbPctb, Feature::Body, Feature::BodyAbsPct, Feature::BodyRatio, Feature::BodySum12,
    Feature::BodySum3, Feature::BodySum6, Feature::BreakoutEnergy, Feature::Cci12, Feature::Cci24,
    Feature::Cci72, Feature::ClosePosition, Feature::CloseZ12, Feature::CloseZ24,
    Feature::CloseZ48, Feature::Compression12To72, Feature::DistSma12, Feature::DistSma24,
    Feature::DistVwap24, Feature::DistVwap72, Feature::DonchHigh12, Feature::DonchHigh24,
    Feature::DonchHigh72, Feature::DonchLow12, Feature::DonchLow144, Feature::DonchLow24,
    Feature::DonchLow72, Feature::FailedHigh12, Feature::FailedLow12, Feature::FlipCount12,
    Feature::FlipCount6, Feature::GreenCount3, Feature::GreenCount6, Feature::GreenStreak,
    Feature::HaBody, Feature::HaBodyRatio, Feature::HaClosePosition, Feature::Hour,
    Feature::LowerWick, Feature::LowerWickBody, Feature::MacdHistPct, Feature::MacdPct,
    Feature::Mfi14, Feature::Mfi21, Feature::Mfi8, Feature::MinuteOfDay, Feature::RangeAtr14,
    Feature::RangePctZ24, Feature::RedCount3, Feature::RedCount6, Feature::RedStreak,
    Feature::Ret1, Feature::Ret12, Feature::Ret24, Feature::Ret3, Feature::Ret72, Feature::Rsi14,
    Feature::Rsi21, Feature::Rsi7, Feature::Rsi8, Feature::SessionLondon,
    Feature::SessionOverlapLondonUs, Feature::SessionUs, Feature::SignedVolumeRatio20,
    Feature::StochK12, Feature::StochK24, Feature::StochK72, Feature::UpperWick,
    Feature::UpperWickBody, Feature::VolumeBodyEfficiency, Feature::VolumeRangeEfficiency,
    Feature::VolumeRatio20, Feature::VolumeZ24, Feature::VolumeZ96, Feature::VwapSlope24,
    Feature::VwapSlope72, Feature::Weekday,
];

/// The rules: a color, green where true, and the conditions on which it is voted for.
pub const RULES: [(bool, [Cond; 6]); 542] = [
    (true, [
        (Op::Le, 5, -13_135_821_846, 0, 12), (Op::Ge, 19, 2_080_444_997_831, 0, 12),
        (Op::Eq, 80, 3, 0, 0), ANY, ANY, ANY,
    ]),
    (false, [
        (Op::Ge, 55, 6_173_028_957, 0, 12), (Op::Le, 62, 27_867_709_092_007, 0, 12),
        (Op::Eq, 65, 1, 0, 0), ANY, ANY, ANY,
    ]),
    (true, [
        (Op::Le, 5, -13_135_821_846, 0, 12), (Op::Ge, 19, 2_080_444_997_831, 0, 12),
        (Op::In, 41, 20, 23, 0), ANY, ANY, ANY,
    ]),
    (true, [(Op::Le, 24, -103_167_040_398, 0, 12), (Op::Ge, 65, 1, 0, 0), ANY, ANY, ANY, ANY]),
    (true, [
        (Op::Le, 16, -1_705_007_578_106, 0, 12), (Op::Ge, 67, 3_241_967_620_561, 0, 12),
        (Op::Eq, 41, 14, 0, 0), ANY, ANY, ANY,
    ]),
    (true, [
        (Op::Le, 5, -5_185_093_586, 0, 12), (Op::Ge, 12, 19_729_361_706_083, 0, 11),
        (Op::Eq, 64, 1, 0, 0), ANY, ANY, ANY,
    ]),
    (false, [
        (Op::Ge, 40, 644_678_507_722, 0, 12), (Op::Ge, 6, 10_655_328_013, 0, 12),
        (Op::In, 41, 20, 23, 0), ANY, ANY, ANY,
    ]),
    (false, [
        (Op::Ge, 27, 95_760_974_066, 0, 12), (Op::Le, 72, 18_666_518_665, 0, 12), ANY, ANY, ANY,
        ANY,
    ]),
    (false, [
        (Op::Ge, 27, 113_311_886_667, 0, 12), (Op::Le, 50, 545_495_059_332, 0, 12), ANY, ANY, ANY,
        ANY,
    ]),
    (false, [
        (Op::Ge, 40, 644_678_507_722, 0, 12), (Op::Ge, 6, 10_655_328_013, 0, 12),
        (Op::Eq, 80, 3, 0, 0), ANY, ANY, ANY,
    ]),
    (false, [
        (Op::Ge, 46, 8_980_044_543_946, 0, 11), (Op::In, 80, 5, 5, 0), (Op::Eq, 41, 12, 0, 0),
        ANY, ANY, ANY,
    ]),
    (false, [
        (Op::Ge, 4, 1_202_805_912_201, 0, 12), (Op::Le, 78, -430_553_703, 0, 12),
        (Op::Eq, 41, 21, 0, 0), ANY, ANY, ANY,
    ]),
    (true, [
        (Op::Le, 28, 6_404_171_868, 0, 13), (Op::Le, 38, -7_640_254_912, 0, 12),
        (Op::Ge, 6, 7_312_429_007, 0, 12), (Op::Eq, 41, 21, 0, 0), ANY, ANY,
    ]),
    (true, [
        (Op::Le, 69, 5_443_385_043, 0, 10), (Op::Eq, 41, 5, 0, 0),
        (Op::Le, 61, 3_911_398_072, 0, 8), (Op::Eq, 80, 4, 0, 0), ANY, ANY,
    ]),
    (true, [
        (Op::Le, 69, 15_180_011_010_737, 0, 12), (Op::Ge, 72, 102_022_412_698_827, 0, 12),
        (Op::Eq, 41, 15, 0, 0), ANY, ANY, ANY,
    ]),
    (true, [
        (Op::Le, 28, 1_457_840_018, 0, 12), (Op::Le, 18, -3_385_888_687, 0, 9),
        (Op::Ge, 24, -7_190_350_995, 0, 12), (Op::Eq, 41, 10, 0, 0), ANY, ANY,
    ]),
    (false, [
        (Op::Ge, 17, 3_082_851_148, 0, 9), (Op::Eq, 80, 3, 0, 0),
        (Op::Le, 47, 6_652_204_642, 0, 8), (Op::Eq, 41, 5, 0, 0), ANY, ANY,
    ]),
    (true, [
        (Op::Le, 68, 1_371_097_431_342, 0, 12), (Op::Ge, 79, 10_852_199_486, 0, 12),
        (Op::Eq, 41, 0, 0, 0), ANY, ANY, ANY,
    ]),
    (true, [
        (Op::Le, 69, 5_132_606_156, 0, 9), (Op::Ge, 59, 2_599_541_236, 0, 11),
        (Op::Le, 62, 2_446_140_344, 0, 8), (Op::Eq, 41, 1, 0, 0), ANY, ANY,
    ]),
    (true, [
        (Op::Le, 30, 5_704_541_149, 0, 13), (Op::Ge, 72, 5_117_647_059, 0, 9),
        (Op::Ge, 42, 1_612_549_971, 0, 14), (Op::Eq, 41, 11, 0, 0), ANY, ANY,
    ]),
    (true, [
        (Op::Le, 48, 7_263_095_943_275, 0, 12), (Op::Le, 52, 0, 0, 0), (Op::In, 41, 0, 7, 0), ANY,
        ANY, ANY,
    ]),
    (true, [
        (Op::Le, 17, -3_089_556_532_241, 0, 12), (Op::Le, 79, -15_077_248_431, 0, 12),
        (Op::Eq, 80, 2, 0, 0), ANY, ANY, ANY,
    ]),
    (true, [
        (Op::Le, 17, -2_774_117_242, 0, 9), (Op::Ge, 8, -5_758_468_918, 0, 12),
        (Op::Le, 10, -4_965_357_046, 0, 12), (Op::Eq, 41, 22, 0, 0), ANY, ANY,
    ]),
    (true, [
        (Op::Ge, 54, 6, 0, 0), (Op::Le, 1, -1_127_098_909_018, 0, 12), (Op::Eq, 41, 5, 0, 0), ANY,
        ANY, ANY,
    ]),
    (true, [
        (Op::Le, 16, -2_220_922_553_819, 0, 12), (Op::Ge, 44, 404_314_765, 0, 12),
        (Op::Eq, 64, 1, 0, 0), ANY, ANY, ANY,
    ]),
    (true, [
        (Op::Le, 16, -2_110_392_815_456, 0, 12), (Op::Ge, 1, 5_602_555_707_271, 0, 12),
        (Op::Eq, 65, 1, 0, 0), ANY, ANY, ANY,
    ]),
    (true, [
        (Op::Le, 4, 4_489_019_383, 0, 11), (Op::Ge, 7, 9_987_638_412, 0, 10),
        (Op::Ge, 13, -2_011_674_785, 0, 7), (Op::Eq, 41, 9, 0, 0), ANY, ANY,
    ]),
    (false, [
        (Op::Ge, 68, 89_541_313_522_713, 0, 12), (Op::Ge, 0, 30_625_040_783_455, 0, 12),
        (Op::Eq, 41, 12, 0, 0), ANY, ANY, ANY,
    ]),
    (true, [
        (Op::Le, 69, 9_711_755_951_452, 0, 12), (Op::Ge, 1, 13_438_071_751_687, 0, 12),
        (Op::Eq, 41, 12, 0, 0), ANY, ANY, ANY,
    ]),
    (true, [
        (Op::Le, 69, 787_062_464_583, 0, 12), (Op::Ge, 45, 533_890_036, 0, 12),
        (Op::Eq, 80, 0, 0, 0), ANY, ANY, ANY,
    ]),
    (true, [
        (Op::Le, 68, 5_418_823_304_347, 0, 12), (Op::Ge, 19, 1_731_253_361_596, 0, 12),
        (Op::Eq, 41, 21, 0, 0), ANY, ANY, ANY,
    ]),
    (false, [
        (Op::Ge, 25, -135_922_631, 0, 11), (Op::Ge, 45, 13_873_233_781, 0, 12),
        (Op::Eq, 80, 0, 0, 0), ANY, ANY, ANY,
    ]),
    (true, [
        (Op::Le, 13, -296_373_970_792_508, 0, 12), (Op::Ge, 38, -3_927_732_991, 0, 12),
        (Op::Eq, 41, 23, 0, 0), ANY, ANY, ANY,
    ]),
    (true, [
        (Op::Le, 4, -293_693_136_323, 0, 12), (Op::Ge, 72, 389_314_900_769, 0, 12),
        (Op::Eq, 65, 1, 0, 0), ANY, ANY, ANY,
    ]),
    (true, [
        (Op::Le, 62, 19_291_134_799_525, 0, 12), (Op::Le, 11, -313_680_587_227, 0, 12),
        (Op::Eq, 41, 23, 0, 0), ANY, ANY, ANY,
    ]),
    (true, [
        (Op::Le, 68, 15_251_559_689_203, 0, 12), (Op::Ge, 72, 102_022_412_698_827, 0, 12),
        (Op::Eq, 41, 15, 0, 0), ANY, ANY, ANY,
    ]),
    (true, [
        (Op::Le, 16, -1_970_296_088_074, 0, 12), (Op::Le, 39, 118_286_862_474, 0, 12),
        (Op::Eq, 80, 5, 0, 0), ANY, ANY, ANY,
    ]),
    (false, [
        (Op::Ge, 37, 6, 0, 0), (Op::Le, 19, 590_766_072_643, 0, 12), (Op::Eq, 41, 2, 0, 0), ANY,
        ANY, ANY,
    ]),
    (true, [
        (Op::Le, 28, 6_404_171_868, 0, 13), (Op::Le, 38, -7_640_254_912, 0, 12),
        (Op::Ge, 6, 7_312_429_007, 0, 12), (Op::Eq, 41, 11, 0, 0), ANY, ANY,
    ]),
    (true, [
        (Op::Le, 69, 2_898_892_702, 0, 9), (Op::Le, 44, -2_344_176_743, 0, 12),
        (Op::Ge, 50, 1_403_339_542, 0, 9), (Op::Eq, 41, 13, 0, 0), ANY, ANY,
    ]),
    (true, [
        (Op::Le, 17, -2_774_117_242, 0, 9), (Op::Ge, 61, 3_137_459_303, 0, 8),
        (Op::Le, 30, 1_481_980_796, 0, 13), (Op::Eq, 41, 13, 0, 0), ANY, ANY,
    ]),
    (false, [
        (Op::Ge, 17, 3_068_414_947, 0, 9), (Op::Eq, 80, 5, 0, 0),
        (Op::Ge, 18, 3_429_563_387, 0, 9), (Op::Eq, 41, 14, 0, 0), ANY, ANY,
    ]),
    (false, [
        (Op::Ge, 17, 3_068_414_947, 0, 9), (Op::Le, 18, 1_903_776_951, 0, 9),
        (Op::Le, 28, 3_033_879_208, 0, 11), (Op::Eq, 41, 19, 0, 0), ANY, ANY,
    ]),
    (true, [
        (Op::Le, 40, 273_882_464_262, 0, 12), (Op::Ge, 29, 30_155_709_967, 0, 12),
        (Op::Eq, 80, 4, 0, 0), ANY, ANY, ANY,
    ]),
    (true, [
        (Op::Le, 69, 5_132_606_156, 0, 9), (Op::Ge, 59, 2_599_541_236, 0, 11),
        (Op::Le, 62, 2_446_140_344, 0, 8), (Op::Eq, 64, 1, 0, 0), ANY, ANY,
    ]),
    (true, [
        (Op::Le, 16, -2_187_038_250_278, 0, 12), (Op::Ge, 72, 127_376_961_958, 0, 11),
        (Op::Eq, 41, 8, 0, 0), ANY, ANY, ANY,
    ]),
    (true, [
        (Op::Ge, 53, 5, 0, 0), (Op::Ge, 40, 713_503_577_816, 0, 12), (Op::Eq, 41, 8, 0, 0), ANY,
        ANY, ANY,
    ]),
    (false, [
        (Op::Ge, 25, -362_649_771, 0, 12), (Op::Ge, 2, 76_658_772, 0, 10), (Op::Eq, 41, 16, 0, 0),
        ANY, ANY, ANY,
    ]),
    (false, [
        (Op::Ge, 12, 211_785_069_809_589, 0, 12), (Op::Ge, 7, 1, 0, 0), (Op::In, 41, 20, 23, 0),
        ANY, ANY, ANY,
    ]),
    (true, [
        (Op::Le, 69, 452_207_778_726, 0, 12), (Op::Ge, 27, 134_239_291, 0, 12),
        (Op::In, 41, 20, 23, 0), ANY, ANY, ANY,
    ]),
    (false, [
        (Op::Ge, 48, 92_538_838_851_052, 0, 12), (Op::Le, 11, -227_167_506_527, 0, 12),
        (Op::Eq, 41, 12, 0, 0), ANY, ANY, ANY,
    ]),
    (true, [
        (Op::Le, 4, 156_166_218_685, 0, 12), (Op::Le, 1, -42_545_668_662_262, 0, 12),
        (Op::Eq, 41, 9, 0, 0), ANY, ANY, ANY,
    ]),
    (true, [
        (Op::Le, 4, 83_867_390_324, 0, 12), (Op::Le, 76, -1_100_475_105_203, 0, 12),
        (Op::Eq, 41, 12, 0, 0), ANY, ANY, ANY,
    ]),
    (false, [
        (Op::Ge, 68, 9_887_542_775, 0, 8), (Op::Ge, 56, 2_486_548_978, 0, 11),
        (Op::Le, 42, 1_638_796_436, 0, 12), (Op::Eq, 41, 12, 0, 0), ANY, ANY,
    ]),
    (true, [
        (Op::Le, 28, 6_404_179_203, 0, 13), (Op::Le, 24, -2_387_268_949, 0, 11),
        (Op::Le, 36, 1, 0, 0), (Op::Eq, 41, 20, 0, 0), ANY, ANY,
    ]),
    (false, [
        (Op::Ge, 10, 1_364_096_683, 0, 11), (Op::Ge, 24, -509_590_257, 0, 12),
        (Op::Le, 57, 173_612_306, 0, 10), (Op::Eq, 41, 5, 0, 0), ANY, ANY,
    ]),
    (true, [
        (Op::Le, 69, 7_662_631_226, 0, 9), (Op::Le, 24, -4_360_964_035, 0, 11),
        (Op::Le, 2, 1_278_625_059, 0, 11), (Op::Eq, 41, 22, 0, 0), ANY, ANY,
    ]),
    (true, [
        (Op::Le, 12, -209_954_494_058_912, 0, 12), (Op::Le, 79, -11_145_677_221, 0, 12),
        (Op::Eq, 41, 22, 0, 0), ANY, ANY, ANY,
    ]),
    (true, [
        (Op::Le, 30, 5_704_541_149, 0, 13), (Op::Ge, 72, 5_117_647_059, 0, 9),
        (Op::Ge, 42, 1_612_549_971, 0, 14), (Op::Eq, 41, 5, 0, 0), ANY, ANY,
    ]),
    (true, [
        (Op::Le, 4, -25_147_324_264, 0, 12), (Op::Ge, 12, -9_037_920_447_042, 0, 11),
        (Op::Eq, 41, 12, 0, 0), ANY, ANY, ANY,
    ]),
    (false, [
        (Op::Ge, 46, 90_605_260_301_048, 0, 12), (Op::Le, 50, 470_794_215_282, 0, 12),
        (Op::Eq, 80, 5, 0, 0), ANY, ANY, ANY,
    ]),
    (true, [
        (Op::Le, 17, -2_387_301_319_167, 0, 12), (Op::Ge, 13, -43_945_068_697_837, 0, 12),
        (Op::Eq, 80, 2, 0, 0), ANY, ANY, ANY,
    ]),
    (false, [
        (Op::Ge, 4, 1_011_928_971_326, 0, 12), (Op::Le, 51, -1_203_389_651_906, 0, 12),
        (Op::Eq, 41, 17, 0, 0), ANY, ANY, ANY,
    ]),
    (true, [
        (Op::Le, 12, -225_990_615_221_245, 0, 12), (Op::Ge, 38, -191_371_853, 0, 11),
        (Op::Eq, 41, 1, 0, 0), ANY, ANY, ANY,
    ]),
    (true, [
        (Op::Le, 62, 20_069_277_361_163, 0, 12),
        (Op::Between, 46, 44_867_293_806_931, 55_028_092_949_405, 12), (Op::Eq, 41, 22, 0, 0),
        ANY, ANY, ANY,
    ]),
    (false, [
        (Op::Ge, 25, -362_649_771, 0, 12), (Op::Ge, 29, 47_966_000_661, 0, 12),
        (Op::Eq, 41, 15, 0, 0), ANY, ANY, ANY,
    ]),
    (false, [
        (Op::Ge, 17, 2_801_397_412_222, 0, 12), (Op::Le, 79, -7_352_033_255, 0, 12),
        (Op::Eq, 64, 1, 0, 0), ANY, ANY, ANY,
    ]),
    (false, [
        (Op::Ge, 37, 4, 0, 0), (Op::Le, 78, -11_503_037_214, 0, 12), (Op::Eq, 65, 1, 0, 0), ANY,
        ANY, ANY,
    ]),
    (false, [
        (Op::Ge, 17, 3_093_219_443_607, 0, 12), (Op::Le, 2, 515_254_142, 0, 12),
        (Op::Eq, 80, 5, 0, 0), ANY, ANY, ANY,
    ]),
    (true, [
        (Op::Le, 4, -1_125_914_436, 0, 11), (Op::Ge, 7, 9_656_401_664, 0, 10),
        (Op::Le, 50, 1_586_225_659, 0, 9), (Op::Eq, 41, 9, 0, 0), ANY, ANY,
    ]),
    (true, [
        (Op::Le, 55, -5_317_545_063, 0, 12), (Op::Le, 6, 5_359_445_082, 0, 12),
        (Op::Eq, 41, 9, 0, 0), ANY, ANY, ANY,
    ]),
    (true, [
        (Op::Le, 68, 24_430_142_129_257, 0, 12), (Op::Ge, 4, 615_571_013_053, 0, 12),
        (Op::Eq, 41, 21, 0, 0), ANY, ANY, ANY,
    ]),
    (true, [
        (Op::Le, 16, -1_970_296_088_074, 0, 12), (Op::Ge, 67, 1_841_596_579_591, 0, 12),
        (Op::Eq, 80, 0, 0, 0), ANY, ANY, ANY,
    ]),
    (true, [
        (Op::Le, 69, 9_711_755_951_452, 0, 12), (Op::Ge, 9, 1_375_151_652, 0, 12),
        (Op::Eq, 80, 3, 0, 0), ANY, ANY, ANY,
    ]),
    (true, [
        (Op::Le, 38, -1_555_592_433, 0, 12), (Op::Ge, 63, 72_617_548_923_107, 0, 12),
        (Op::In, 41, 20, 23, 0), ANY, ANY, ANY,
    ]),
    (true, [
        (Op::Le, 18, -2_447_691_672, 0, 9), (Op::Le, 3, 6_406_963_614, 0, 13),
        (Op::Le, 8, -4_124_824_725, 0, 12), (Op::Eq, 80, 6, 0, 0), ANY, ANY,
    ]),
    (true, [
        (Op::Le, 17, -1_673_958_918_983, 0, 12), (Op::Ge, 44, 552_259_724, 0, 12),
        (Op::Eq, 80, 0, 0, 0), ANY, ANY, ANY,
    ]),
    (false, [
        (Op::Ge, 4, 1_075_503_944_993, 0, 12), (Op::Le, 51, -822_178_298_076, 0, 12),
        (Op::Eq, 41, 4, 0, 0), ANY, ANY, ANY,
    ]),
    (false, [
        (Op::Ge, 24, -258_479, 0, 12), (Op::Ge, 56, 19_271_469_794, 0, 12), (Op::Eq, 80, 5, 0, 0),
        ANY, ANY, ANY,
    ]),
    (true, [
        (Op::Le, 4, -267_047_060_819, 0, 12), (Op::Le, 51, 1_413_382_543_016, 0, 12),
        (Op::Eq, 65, 1, 0, 0), ANY, ANY, ANY,
    ]),
    (true, [
        (Op::Le, 62, 20_625_140_058_973, 0, 12), (Op::Ge, 79, 9_956_278_533, 0, 12),
        (Op::Eq, 41, 21, 0, 0), ANY, ANY, ANY,
    ]),
    (false, [
        (Op::Ge, 68, 97_683_323_069_458, 0, 12), (Op::Le, 46, 31_262_587_312_934, 0, 12),
        (Op::Eq, 41, 13, 0, 0), ANY, ANY, ANY,
    ]),
    (true, [
        (Op::Le, 16, -2_092_705_762_683, 0, 12), (Op::Ge, 74, 11_732_866_886, 0, 12),
        (Op::Eq, 41, 13, 0, 0), ANY, ANY, ANY,
    ]),
    (true, [
        (Op::Le, 48, 4_701_970_326_377, 0, 12), (Op::Ge, 73, 5_051_760_632, 0, 12),
        (Op::Eq, 41, 21, 0, 0), ANY, ANY, ANY,
    ]),
    (false, [
        (Op::Ge, 4, 1_060_875_802_045, 0, 12), (Op::Le, 39, 140_781_768_746, 0, 12),
        (Op::In, 41, 0, 7, 0), ANY, ANY, ANY,
    ]),
    (true, [
        (Op::Le, 57, -5_666_612_446, 0, 11), (Op::Le, 61, 285_686_663, 0, 7),
        (Op::Le, 13, -2_646_708_728, 0, 7), (Op::Eq, 80, 1, 0, 0), ANY, ANY,
    ]),
    (true, [
        (Op::Le, 30, 5_704_541_149, 0, 13), (Op::Le, 12, -2_138_206_725, 0, 7),
        (Op::Ge, 70, 2_887_028_121, 0, 9), (Op::Eq, 80, 3, 0, 0), ANY, ANY,
    ]),
    (true, [
        (Op::Le, 69, 1_644_587_669, 0, 9), (Op::Le, 4, -24_090_522, 0, 8),
        (Op::Ge, 43, 1_797_752_809, 0, 11), (Op::Eq, 41, 20, 0, 0), ANY, ANY,
    ]),
    (true, [
        (Op::Le, 69, 1_644_587_669, 0, 9), (Op::Le, 4, -24_090_522, 0, 8),
        (Op::Ge, 43, 1_797_752_809, 0, 11), (Op::Eq, 41, 22, 0, 0), ANY, ANY,
    ]),
    (true, [
        (Op::Le, 68, 2_062_588_143_616, 0, 12), (Op::Le, 46, 9_622_580_642_198, 0, 12),
        (Op::Eq, 41, 8, 0, 0), ANY, ANY, ANY,
    ]),
    (false, [
        (Op::Ge, 46, 90_605_260_301_048, 0, 12), (Op::Ge, 72, 10_072_336_134_454, 0, 12),
        (Op::Eq, 41, 9, 0, 0), ANY, ANY, ANY,
    ]),
    (true, [
        (Op::Le, 29, 254_012_653, 0, 11), (Op::Ge, 42, 2_459_555_014, 0, 12),
        (Op::Eq, 41, 7, 0, 0), ANY, ANY, ANY,
    ]),
    (true, [
        (Op::Le, 48, 5_127_057_896_226, 0, 12), (Op::Le, 1, -1_893_164_059_008, 0, 12),
        (Op::Eq, 41, 18, 0, 0), ANY, ANY, ANY,
    ]),
    (true, [
        (Op::Le, 4, -133_228_681_061, 0, 12), (Op::Ge, 12, -124_741_159_730_216, 0, 12),
        (Op::In, 41, 20, 23, 0), ANY, ANY, ANY,
    ]),
    (true, [
        (Op::Ge, 53, 5, 0, 0), (Op::Ge, 40, 713_503_577_816, 0, 12), (Op::Eq, 41, 18, 0, 0), ANY,
        ANY, ANY,
    ]),
    (true, [
        (Op::Le, 69, 4_960_424_772_543, 0, 12), (Op::Ge, 1, 23_119_074_919_152, 0, 12),
        (Op::Eq, 80, 1, 0, 0), ANY, ANY, ANY,
    ]),
    (true, [
        (Op::Le, 69, 4_960_424_772_543, 0, 12), (Op::Ge, 1, 23_119_074_919_152, 0, 12),
        (Op::Eq, 80, 6, 0, 0), ANY, ANY, ANY,
    ]),
    (true, [
        (Op::Le, 17, -3_089_556_532_241, 0, 12), (Op::Le, 74, 473_607_612, 0, 12),
        (Op::Eq, 80, 5, 0, 0), ANY, ANY, ANY,
    ]),
    (true, [
        (Op::Le, 17, -3_089_556_532_241, 0, 12), (Op::Ge, 38, -1_496_400_714, 0, 12),
        (Op::In, 41, 20, 23, 0), ANY, ANY, ANY,
    ]),
    (true, [
        (Op::Le, 4, -5_731_108_736, 0, 12), (Op::Ge, 30, 2_923_394_723, 0, 11),
        (Op::Ge, 28, 4_226_528_076, 0, 11), (Op::Eq, 41, 10, 0, 0), ANY, ANY,
    ]),
    (true, [
        (Op::Ge, 54, 3, 0, 0), (Op::Le, 62, 30, 0, 0), (Op::Ge, 50, 15, 0, 1),
        (Op::Ge, 7, 75, 0, 2), (Op::Eq, 41, 21, 0, 0), (Op::Eq, 80, 5, 0, 0),
    ]),
    (true, [
        (Op::Le, 28, 6_709_289_818, 0, 13), (Op::Le, 4, -24_090_522, 0, 8),
        (Op::Le, 77, 2_912_906_413, 0, 9), (Op::In, 41, 20, 23, 0), ANY, ANY,
    ]),
    (false, [
        (Op::Ge, 4, 1_244_413_952_997, 0, 12), (Op::Ge, 33, 10, 0, 0), (Op::Eq, 64, 1, 0, 0), ANY,
        ANY, ANY,
    ]),
    (true, [
        (Op::Le, 13, -198_155_728_544_659, 0, 12), (Op::Ge, 12, -90_330_450_456_706, 0, 12),
        (Op::Eq, 66, 1, 0, 0), ANY, ANY, ANY,
    ]),
    (false, [
        (Op::Ge, 46, 8_980_044_543_946, 0, 11), (Op::In, 80, 5, 5, 0), (Op::Eq, 41, 16, 0, 0),
        ANY, ANY, ANY,
    ]),
    (false, [
        (Op::Ge, 68, 9_635_554_424_836, 0, 11), (Op::Le, 44, -547_643_196, 0, 12),
        (Op::In, 41, 0, 7, 0), ANY, ANY, ANY,
    ]),
    (true, [
        (Op::Le, 48, 765_525_868, 0, 8), (Op::Ge, 6, 1_206_610_733, 0, 11),
        (Op::Le, 70, 10_166_951, 0, 6), (Op::Eq, 80, 6, 0, 0), ANY, ANY,
    ]),
    (true, [
        (Op::Le, 24, -3_797_357_864, 0, 11), (Op::Le, 47, 138_331_558, 0, 7),
        (Op::Le, 18, -3_063_615_586, 0, 9), (Op::Eq, 80, 3, 0, 0), ANY, ANY,
    ]),
    (true, [
        (Op::Le, 4, 83_545_302_651, 0, 12), (Op::Le, 75, 342_897_905_517, 0, 12),
        (Op::Eq, 41, 20, 0, 0), ANY, ANY, ANY,
    ]),
    (false, [
        (Op::Ge, 17, 3_093_219_443_607, 0, 12), (Op::Le, 2, 515_254_142, 0, 12),
        (Op::In, 41, 7, 14, 0), ANY, ANY, ANY,
    ]),
    (true, [
        (Op::Le, 12, -264_440_276_366_037, 0, 12), (Op::Ge, 1, 4_325_244_011_802, 0, 12),
        (Op::Eq, 65, 1, 0, 0), ANY, ANY, ANY,
    ]),
    (true, [
        (Op::Le, 69, 7_662_631_226, 0, 9), (Op::Le, 24, -4_360_964_035, 0, 11),
        (Op::Le, 2, 1_278_625_059, 0, 11), (Op::Eq, 80, 5, 0, 0), ANY, ANY,
    ]),
    (true, [
        (Op::Le, 13, -183_059_643_654_916, 0, 12), (Op::Le, 15, 0, 0, 0), (Op::Eq, 41, 21, 0, 0),
        ANY, ANY, ANY,
    ]),
    (true, [(Op::Le, 48, 0, 0, 0), (Op::In, 41, 9, 9, 0), (Op::Eq, 80, 5, 0, 0), ANY, ANY, ANY]),
    (true, [
        (Op::Le, 17, -3_089_556_532_241, 0, 12), (Op::Le, 79, -15_077_248_431, 0, 12),
        (Op::Eq, 66, 1, 0, 0), ANY, ANY, ANY,
    ]),
    (true, [
        (Op::Le, 69, 9_711_755_951_452, 0, 12), (Op::Ge, 72, 24_524_084_565_759, 0, 12),
        (Op::Eq, 41, 13, 0, 0), ANY, ANY, ANY,
    ]),
    (true, [
        (Op::Le, 4, -107_140_425, 0, 9), (Op::Le, 3, 4_654_084_234, 0, 13),
        (Op::Ge, 2, 2_988_690_878, 0, 13), (Op::In, 41, 7, 14, 0), ANY, ANY,
    ]),
    (false, [
        (Op::Ge, 4, 1_202_805_912_201, 0, 12), (Op::Le, 78, -430_553_703, 0, 12),
        (Op::Eq, 41, 12, 0, 0), ANY, ANY, ANY,
    ]),
    (false, [
        (Op::Ge, 62, 79_187_266_351_359, 0, 12), (Op::Ge, 73, 7_704_921_362, 0, 12),
        (Op::Eq, 80, 4, 0, 0), ANY, ANY, ANY,
    ]),
    (false, [
        (Op::Ge, 37, 5, 0, 0), (Op::Ge, 62, 65, 0, 0), (Op::Ge, 50, 8, 0, 1),
        (Op::Ge, 7, 6, 0, 1), (Op::Eq, 80, 6, 0, 0), (Op::Eq, 41, 10, 0, 0),
    ]),
    (true, [
        (Op::Le, 60, 18_578_805_575_288, 0, 12), (Op::Ge, 7, 841_316_476_733, 0, 12),
        (Op::Eq, 41, 21, 0, 0), ANY, ANY, ANY,
    ]),
    (false, [(Op::Le, 53, 0, 0, 0), (Op::Ge, 38, 26_410_385_548, 0, 12), ANY, ANY, ANY, ANY]),
    (false, [
        (Op::Ge, 15, 981_752_292_899, 0, 12), (Op::Ge, 12, 2_623_666_355_551, 0, 10),
        (Op::Eq, 80, 3, 0, 0), ANY, ANY, ANY,
    ]),
    (true, [
        (Op::Le, 16, -265_908_861_946, 0, 11), (Op::In, 41, 22, 22, 0), (Op::Eq, 80, 3, 0, 0),
        ANY, ANY, ANY,
    ]),
    (true, [(Op::Le, 36, 0, 0, 0), (Op::In, 80, 5, 5, 0), (Op::Eq, 41, 12, 0, 0), ANY, ANY, ANY]),
    (true, [
        (Op::Le, 17, -2_112_495_107, 0, 9), (Op::Le, 24, -9_779_320_525, 0, 11),
        (Op::Ge, 12, -1_755_808_578, 0, 7), ANY, ANY, ANY,
    ]),
    (true, [
        (Op::Le, 13, -153_526_550_112_837, 0, 12), (Op::Le, 76, -992_604_162_908, 0, 12),
        (Op::Eq, 80, 4, 0, 0), ANY, ANY, ANY,
    ]),
    (false, [
        (Op::Ge, 68, 95_010_861_843_374, 0, 12), (Op::Le, 46, 30_621_116_950_057, 0, 12),
        (Op::Eq, 41, 13, 0, 0), ANY, ANY, ANY,
    ]),
    (true, [
        (Op::Le, 16, -1_334_336_613_744, 0, 12), (Op::Ge, 46, 75_524_132_937_806, 0, 12),
        (Op::Eq, 41, 3, 0, 0), ANY, ANY, ANY,
    ]),
    (true, [
        (Op::Le, 17, -2_304_024_546, 0, 9), (Op::Eq, 41, 22, 0, 0),
        (Op::Le, 71, 9_223_945_209, 0, 17), (Op::Eq, 80, 0, 0, 0), ANY, ANY,
    ]),
    (false, [
        (Op::Ge, 63, 7_382_299_439, 0, 8), (Op::Le, 59, -1_475_596_055, 0, 11),
        (Op::Le, 18, 1_450_800_747, 0, 9), (Op::Eq, 80, 5, 0, 0), ANY, ANY,
    ]),
    (true, [
        (Op::Le, 58, -4_596_587_699, 0, 12), (Op::Le, 2, 1_646_300_512, 0, 12),
        (Op::Eq, 41, 1, 0, 0), ANY, ANY, ANY,
    ]),
    (false, [
        (Op::Ge, 37, 4, 0, 0), (Op::Le, 15, 29_402_232_243, 0, 12), (Op::In, 41, 7, 14, 0), ANY,
        ANY, ANY,
    ]),
    (true, [
        (Op::Ge, 54, 4, 0, 0), (Op::Le, 62, 35, 0, 0), (Op::Ge, 50, 12, 0, 1),
        (Op::Ge, 7, 75, 0, 2), (Op::Eq, 41, 12, 0, 0), (Op::Eq, 80, 5, 0, 0),
    ]),
    (false, [
        (Op::Ge, 63, 8_023_066_448, 0, 8), (Op::Le, 18, 1_456_773_235, 0, 9),
        (Op::Le, 46, 7_370_646_328, 0, 8), (Op::Eq, 65, 1, 0, 0), ANY, ANY,
    ]),
    (true, [
        (Op::Le, 48, 765_525_868, 0, 8), (Op::Ge, 6, 1_206_610_733, 0, 11),
        (Op::Le, 70, 10_166_951, 0, 6), (Op::Eq, 41, 15, 0, 0), ANY, ANY,
    ]),
    (false, [
        (Op::Ge, 63, 85_600_813_068_941, 0, 12),
        (Op::Between, 78, -3_184_483_329, 3_367_010_176, 12), (Op::Eq, 41, 16, 0, 0), ANY, ANY,
        ANY,
    ]),
    (true, [
        (Op::Le, 68, 5_767_007_525_744, 0, 12), (Op::Le, 51, -1_397_975_506_363, 0, 12),
        (Op::Eq, 41, 18, 0, 0), ANY, ANY, ANY,
    ]),
    (true, [
        (Op::Le, 16, -2_240_426_681_222, 0, 12), (Op::Ge, 23, 13_975_919_138, 0, 12),
        (Op::In, 41, 20, 23, 0), ANY, ANY, ANY,
    ]),
    (false, [
        (Op::Ge, 69, 92_398_919_564_528, 0, 12), (Op::Le, 40, 426_292_967_876, 0, 12),
        (Op::Eq, 65, 1, 0, 0), ANY, ANY, ANY,
    ]),
    (true, [
        (Op::Le, 60, 21_149_731_261_368, 0, 12), (Op::Ge, 13, -8_821_972_132_586, 0, 11),
        (Op::Eq, 80, 0, 0, 0), ANY, ANY, ANY,
    ]),
    (true, [
        (Op::Le, 68, 6_862_995_766, 0, 10), (Op::Le, 17, -2_808_854_839, 0, 9),
        (Op::Le, 6, 3_473_998_504, 0, 12), (Op::Eq, 41, 5, 0, 0), ANY, ANY,
    ]),
    (true, [
        (Op::Le, 69, 2_417_455_072_988, 0, 12), (Op::Ge, 0, 228_653_572_966, 0, 12),
        (Op::Eq, 41, 16, 0, 0), ANY, ANY, ANY,
    ]),
    (true, [
        (Op::Le, 69, 452_207_778_726, 0, 12), (Op::Ge, 27, 134_239_291, 0, 12),
        (Op::Eq, 66, 1, 0, 0), ANY, ANY, ANY,
    ]),
    (false, [
        (Op::Ge, 68, 97_251_019_949_653, 0, 12), (Op::Ge, 71, 1_007_899_334, 0, 12),
        (Op::Eq, 80, 0, 0, 0), ANY, ANY, ANY,
    ]),
    (false, [
        (Op::Ge, 44, 1_865_948_161, 0, 12), (Op::Ge, 68, 9_536_043_284, 0, 8),
        (Op::Ge, 47, 7_395_404_425, 0, 8), (Op::Eq, 41, 6, 0, 0), ANY, ANY,
    ]),
    (false, [
        (Op::Ge, 17, 2_783_849_801, 0, 9), (Op::Eq, 80, 5, 0, 0),
        (Op::Le, 26, -1_004_677_022, 0, 12), (Op::Eq, 41, 11, 0, 0), ANY, ANY,
    ]),
    (true, [
        (Op::Le, 17, -2_774_117_242, 0, 9), (Op::Ge, 8, -5_758_468_918, 0, 12),
        (Op::Le, 28, 1_091_384_768, 0, 12), (Op::Eq, 80, 4, 0, 0), ANY, ANY,
    ]),
    (false, [
        (Op::Ge, 4, 1_202_805_912_201, 0, 12), (Op::Le, 78, -430_553_703, 0, 12),
        (Op::Eq, 41, 17, 0, 0), ANY, ANY, ANY,
    ]),
    (true, [
        (Op::Le, 4, -174_372_887_633, 0, 12),
        (Op::Between, 50, 780_090_159_838, 978_325_233_895, 12), (Op::Eq, 80, 1, 0, 0), ANY, ANY,
        ANY,
    ]),
    (true, [
        (Op::Le, 8, -7_163_992_181, 0, 11), (Op::Le, 68, 8_601_601_931, 0, 9),
        (Op::Le, 48, 2_008_710_485, 0, 8), (Op::Eq, 80, 1, 0, 0), ANY, ANY,
    ]),
    (false, [
        (Op::Le, 53, 0, 0, 0), (Op::Le, 46, 3_931_642_972_534, 0, 11), (Op::Eq, 41, 4, 0, 0), ANY,
        ANY, ANY,
    ]),
    (true, [
        (Op::Le, 62, 18_659_987_150_027, 0, 12), (Op::Le, 19, 612_626_728_912, 0, 12),
        (Op::Eq, 41, 6, 0, 0), ANY, ANY, ANY,
    ]),
    (true, [
        (Op::Ge, 54, 6, 0, 0), (Op::Ge, 1, 6_159_740_467_929, 0, 12), (Op::Eq, 41, 20, 0, 0), ANY,
        ANY, ANY,
    ]),
    (true, [
        (Op::Le, 16, -1_595_966_140_347, 0, 12), (Op::Le, 6, 12_687_105, 0, 12),
        (Op::Eq, 41, 8, 0, 0), ANY, ANY, ANY,
    ]),
    (true, [
        (Op::Le, 13, -206_043_561_926_848, 0, 12), (Op::Le, 1, -610_353_276_712, 0, 12),
        (Op::Eq, 65, 1, 0, 0), ANY, ANY, ANY,
    ]),
    (false, [
        (Op::Ge, 68, 93_154_663_125_084, 0, 12), (Op::Le, 76, -138_757_033_289, 0, 11),
        (Op::Eq, 41, 3, 0, 0), ANY, ANY, ANY,
    ]),
    (false, [
        (Op::Ge, 37, 5, 0, 0), (Op::Le, 23, -17_233_546_983, 0, 12), (Op::Eq, 80, 3, 0, 0), ANY,
        ANY, ANY,
    ]),
    (true, [
        (Op::Le, 12, -185_239_722_022_272, 0, 12), (Op::Ge, 73, 67_308_277, 0, 10),
        (Op::Eq, 41, 16, 0, 0), ANY, ANY, ANY,
    ]),
    (true, [
        (Op::Le, 12, -2_434_867_158, 0, 7), (Op::Le, 3, 1_411_663_091, 0, 12),
        (Op::Ge, 6, 3_473_998_504, 0, 12), (Op::Eq, 80, 6, 0, 0), ANY, ANY,
    ]),
    (true, [
        (Op::Le, 57, -5_666_612_446, 0, 11), (Op::Le, 61, 285_686_663, 0, 7),
        (Op::Le, 13, -2_646_708_728, 0, 7), (Op::Eq, 66, 1, 0, 0), ANY, ANY,
    ]),
    (true, [
        (Op::Le, 13, -296_373_970_792_508, 0, 12), (Op::Ge, 38, -3_927_732_991, 0, 12),
        (Op::Eq, 41, 10, 0, 0), ANY, ANY, ANY,
    ]),
    (true, [
        (Op::Le, 40, 282_482_101_409, 0, 12), (Op::Ge, 21, 9_380_892_054, 0, 12),
        (Op::Eq, 64, 1, 0, 0), ANY, ANY, ANY,
    ]),
    (false, [
        (Op::Ge, 37, 5, 0, 0), (Op::Le, 60, 44_439_233_481_289, 0, 12), (Op::Eq, 41, 10, 0, 0),
        ANY, ANY, ANY,
    ]),
    (false, [
        (Op::Ge, 37, 6, 0, 0), (Op::Ge, 0, 4_657_215_509_588, 0, 12), (Op::Eq, 41, 3, 0, 0), ANY,
        ANY, ANY,
    ]),
    (true, [
        (Op::Le, 68, 6_452_676_568_325, 0, 12), (Op::Le, 0, -1_915_883_231_776, 0, 12),
        (Op::Eq, 41, 6, 0, 0), ANY, ANY, ANY,
    ]),
    (false, [
        (Op::Ge, 16, 1_722_377_357_787, 0, 12), (Op::Ge, 1, 25_309_101_221_933, 0, 12),
        (Op::Eq, 41, 22, 0, 0), ANY, ANY, ANY,
    ]),
    (false, [
        (Op::Ge, 62, 78_148_726_107_272, 0, 12), (Op::Le, 48, 55_944_196_476_296, 0, 12),
        (Op::Eq, 41, 13, 0, 0), ANY, ANY, ANY,
    ]),
    (true, [
        (Op::Le, 63, 20_878_329_763_064, 0, 12), (Op::Le, 76, -765_737_264_252, 0, 12),
        (Op::In, 41, 20, 23, 0), ANY, ANY, ANY,
    ]),
    (false, [
        (Op::Ge, 69, 9_804_361_321, 0, 8), (Op::Ge, 8, 2_432_418_065, 0, 11),
        (Op::Ge, 37, 3, 0, 0), (Op::Eq, 41, 13, 0, 0), ANY, ANY,
    ]),
    (true, [
        (Op::Le, 17, -2_774_117_242, 0, 9), (Op::Le, 3, 6_406_964_493, 0, 13),
        (Op::Ge, 69, 1_074_126_157, 0, 8), (Op::In, 41, 0, 7, 0), ANY, ANY,
    ]),
    (false, [
        (Op::Ge, 48, 9_413_387_702, 0, 8), (Op::Ge, 24, -1_214_530_509, 0, 13),
        (Op::Le, 69, 9_945_945_562, 0, 8), (Op::Eq, 80, 2, 0, 0), ANY, ANY,
    ]),
    (false, [
        (Op::Ge, 4, 1_202_805_912_201, 0, 12), (Op::Le, 46, 45_114_842_308_581, 0, 12),
        (Op::Eq, 64, 1, 0, 0), ANY, ANY, ANY,
    ]),
    (true, [
        (Op::Ge, 54, 6, 0, 0), (Op::Le, 15, 45_742_666, 0, 12), (Op::Eq, 41, 22, 0, 0), ANY, ANY,
        ANY,
    ]),
    (true, [
        (Op::Le, 40, 210_641_246_093, 0, 12), (Op::Ge, 29, 1_508_702_537, 0, 11),
        (Op::Eq, 65, 1, 0, 0), ANY, ANY, ANY,
    ]),
    (false, [
        (Op::Ge, 25, -917_948_329, 0, 12), (Op::Le, 13, -19_900_866_452_413, 0, 12),
        (Op::Eq, 41, 3, 0, 0), ANY, ANY, ANY,
    ]),
    (false, [
        (Op::Ge, 69, 9_813_255_444_133, 0, 11), (Op::Ge, 19, 2_511_911_306_736, 0, 12), ANY, ANY,
        ANY, ANY,
    ]),
    (true, [
        (Op::Le, 4, -235_606_694_343, 0, 12), (Op::Ge, 78, 1_053_177_884, 0, 12),
        (Op::Eq, 41, 0, 0, 0), ANY, ANY, ANY,
    ]),
    (false, [
        (Op::Ge, 37, 6, 0, 0), (Op::Ge, 6, 7_864_217_465, 0, 12), (Op::Eq, 41, 15, 0, 0), ANY,
        ANY, ANY,
    ]),
    (true, [
        (Op::Le, 69, 5_132_606_156, 0, 9), (Op::Ge, 59, 2_599_541_236, 0, 11),
        (Op::Le, 62, 2_446_140_344, 0, 8), (Op::Eq, 65, 1, 0, 0), ANY, ANY,
    ]),
    (true, [
        (Op::Le, 28, 6_709_289_818, 0, 13), (Op::Le, 4, -24_090_522, 0, 8),
        (Op::Le, 77, 2_912_906_413, 0, 9), (Op::Eq, 80, 2, 0, 0), ANY, ANY,
    ]),
    (false, [
        (Op::Ge, 18, 3_429_940_156, 0, 9), (Op::Le, 8, 5_753_340_807, 0, 12),
        (Op::Ge, 61, 6_795_174_536, 0, 8), (Op::Eq, 41, 9, 0, 0), ANY, ANY,
    ]),
    (true, [
        (Op::Le, 56, -3_224_343_338, 0, 11), (Op::Le, 68, 3_779_328_959, 0, 9),
        (Op::Le, 13, -1_757_548_746, 0, 7), (Op::Eq, 41, 14, 0, 0), ANY, ANY,
    ]),
    (true, [
        (Op::Le, 62, 28_488_182_057_264, 0, 12), (Op::Ge, 46, 60_696_816_665_125, 0, 12),
        (Op::Eq, 41, 11, 0, 0), ANY, ANY, ANY,
    ]),
    (true, [
        (Op::Le, 62, 28_488_182_057_264, 0, 12), (Op::Ge, 46, 60_696_816_665_125, 0, 12),
        (Op::Eq, 41, 16, 0, 0), ANY, ANY, ANY,
    ]),
    (true, [
        (Op::Le, 63, 27_937_723_759_111, 0, 12), (Op::Le, 11, -60_399_701_237, 0, 11),
        (Op::Eq, 41, 15, 0, 0), ANY, ANY, ANY,
    ]),
    (true, [
        (Op::Le, 16, -2_187_038_250_278, 0, 12),
        (Op::Between, 50, 754_270_965_462, 952_041_479_441, 12), (Op::Eq, 41, 8, 0, 0), ANY, ANY,
        ANY,
    ]),
    (true, [
        (Op::Le, 16, -2_187_038_250_278, 0, 12), (Op::Le, 75, 604_709_102_916, 0, 12),
        (Op::Eq, 41, 3, 0, 0), ANY, ANY, ANY,
    ]),
    (false, [
        (Op::Ge, 69, 98_632_249_177_409, 0, 12), (Op::Ge, 46, 90_605_260_301_048, 0, 12),
        (Op::Eq, 41, 1, 0, 0), ANY, ANY, ANY,
    ]),
    (false, [
        (Op::Ge, 69, 94_755_383_566_354, 0, 12), (Op::Le, 67, -942_445_884_865, 0, 12),
        (Op::Eq, 41, 12, 0, 0), ANY, ANY, ANY,
    ]),
    (true, [
        (Op::Le, 16, -1_595_966_140_347, 0, 12), (Op::Le, 6, 12_687_105, 0, 12),
        (Op::Eq, 41, 5, 0, 0), ANY, ANY, ANY,
    ]),
    (true, [
        (Op::Le, 16, -1_595_966_140_347, 0, 12), (Op::Le, 51, -1_397_975_506_363, 0, 12),
        (Op::Eq, 41, 4, 0, 0), ANY, ANY, ANY,
    ]),
    (true, [
        (Op::Le, 17, -2_596_399_053_377, 0, 12), (Op::Le, 51, -52_398_857_241, 0, 12),
        (Op::Eq, 41, 1, 0, 0), ANY, ANY, ANY,
    ]),
    (true, [
        (Op::Le, 17, -2_596_399_053_377, 0, 12), (Op::Le, 51, -52_398_857_241, 0, 12),
        (Op::Eq, 41, 6, 0, 0), ANY, ANY, ANY,
    ]),
    (true, [
        (Op::Le, 69, 6_753_473_519_311, 0, 12), (Op::Ge, 43, 5_286_416_861_829, 0, 12),
        (Op::Eq, 41, 21, 0, 0), ANY, ANY, ANY,
    ]),
    (true, [
        (Op::Le, 63, 19_860_943_343_755, 0, 12), (Op::Ge, 78, 80_334_357, 0, 11),
        (Op::In, 41, 7, 14, 0), ANY, ANY, ANY,
    ]),
    (false, [
        (Op::Ge, 4, 1_244_413_952_997, 0, 12), (Op::Le, 38, 1_148_336_911, 0, 12),
        (Op::Eq, 66, 1, 0, 0), ANY, ANY, ANY,
    ]),
    (true, [
        (Op::Le, 4, -1_125_914_436, 0, 11), (Op::Ge, 7, 9_656_401_664, 0, 10),
        (Op::Le, 71, 8_429_477_069, 0, 17), (Op::Eq, 41, 9, 0, 0), ANY, ANY,
    ]),
    (true, [
        (Op::Le, 27, 544_949_204, 0, 12), (Op::Ge, 23, 18_572_337_802, 0, 12),
        (Op::Eq, 66, 1, 0, 0), ANY, ANY, ANY,
    ]),
    (true, [
        (Op::Le, 17, -2_774_117_242, 0, 9), (Op::Ge, 8, -5_758_468_918, 0, 12),
        (Op::Le, 10, -4_965_357_046, 0, 12), (Op::Eq, 41, 1, 0, 0), ANY, ANY,
    ]),
    (false, [
        (Op::Ge, 4, 117_405_034_696, 0, 11), (Op::Ge, 74, 7_974_367_829, 0, 12),
        (Op::Eq, 64, 1, 0, 0), ANY, ANY, ANY,
    ]),
    (true, [
        (Op::Le, 17, -2_346_311_048, 0, 9), (Op::Ge, 7, 9_656_401_664, 0, 10),
        (Op::Ge, 57, -1_042_349_892, 0, 11), (Op::Eq, 41, 9, 0, 0), ANY, ANY,
    ]),
    (false, [
        (Op::Ge, 46, 8_980_044_543_946, 0, 11), (Op::In, 80, 5, 5, 0), (Op::Eq, 41, 23, 0, 0),
        ANY, ANY, ANY,
    ]),
    (true, [
        (Op::Le, 20, -27_370_425_915, 0, 12), (Op::Ge, 49, 1_320, 0, 0), (Op::Eq, 41, 22, 0, 0),
        ANY, ANY, ANY,
    ]),
    (false, [
        (Op::Ge, 68, 99_566_819_537_935, 0, 12), (Op::In, 41, 15, 15, 0), (Op::Eq, 80, 2, 0, 0),
        ANY, ANY, ANY,
    ]),
    (true, [
        (Op::Le, 16, -2_110_392_815_456, 0, 12), (Op::Le, 74, 27_449_778, 0, 11),
        (Op::In, 41, 0, 7, 0), ANY, ANY, ANY,
    ]),
    (true, [
        (Op::Le, 27, 544_949_204, 0, 12), (Op::Le, 48, 0, 0, 0), (Op::Eq, 41, 11, 0, 0), ANY, ANY,
        ANY,
    ]),
    (true, [
        (Op::Le, 48, 765_525_868, 0, 8), (Op::Ge, 6, 1_206_610_733, 0, 11),
        (Op::Le, 70, 10_166_951, 0, 6), (Op::Eq, 65, 1, 0, 0), ANY, ANY,
    ]),
    (true, [
        (Op::Le, 68, 3_592_157_413, 0, 9), (Op::Eq, 80, 5, 0, 0),
        (Op::Le, 12, -1_450_194_062, 0, 7), (Op::Eq, 41, 14, 0, 0), ANY, ANY,
    ]),
    (true, [
        (Op::Le, 17, -2_774_117_242, 0, 9), (Op::Ge, 8, -5_758_468_918, 0, 12),
        (Op::Le, 10, -4_965_357_046, 0, 12), (Op::Eq, 41, 13, 0, 0), ANY, ANY,
    ]),
    (false, [
        (Op::Ge, 68, 963_831_114_696, 0, 10), (Op::Le, 46, 33_955_352_912_075, 0, 12),
        (Op::Eq, 41, 13, 0, 0), ANY, ANY, ANY,
    ]),
    (true, [
        (Op::Le, 17, -2_774_117_242, 0, 9), (Op::Ge, 61, 3_137_459_303, 0, 8),
        (Op::Le, 30, 1_481_980_796, 0, 13), (Op::Eq, 80, 3, 0, 0), ANY, ANY,
    ]),
    (false, [
        (Op::Ge, 63, 8_023_066_448, 0, 8), (Op::Le, 18, 1_456_773_235, 0, 9),
        (Op::Le, 46, 7_370_646_328, 0, 8), (Op::In, 41, 7, 14, 0), ANY, ANY,
    ]),
    (true, [
        (Op::Le, 69, 2_417_455_072_988, 0, 12), (Op::Ge, 0, 228_653_572_966, 0, 12),
        (Op::Eq, 41, 23, 0, 0), ANY, ANY, ANY,
    ]),
    (true, [
        (Op::Le, 63, 12_722_439_334_531, 0, 12), (Op::Ge, 23, -12_496_232_218, 0, 12),
        (Op::Eq, 41, 0, 0, 0), ANY, ANY, ANY,
    ]),
    (false, [
        (Op::Ge, 25, -184_374_788, 0, 12), (Op::Le, 11, -436_252_860_345, 0, 12),
        (Op::Eq, 41, 4, 0, 0), ANY, ANY, ANY,
    ]),
    (true, [
        (Op::Le, 68, 1_679_463_493, 0, 9), (Op::Ge, 6, 8_140_445_126, 0, 12),
        (Op::Le, 45, -345_019_142, 0, 11), (Op::Eq, 80, 5, 0, 0), ANY, ANY,
    ]),
    (true, [
        (Op::Le, 17, -2_774_117_242, 0, 9), (Op::Ge, 8, -5_758_468_918, 0, 12),
        (Op::Le, 28, 1_091_384_768, 0, 12), (Op::Eq, 41, 10, 0, 0), ANY, ANY,
    ]),
    (true, [
        (Op::Le, 4, -235_606_694_343, 0, 12), (Op::Ge, 78, 1_053_177_884, 0, 12),
        (Op::Eq, 64, 1, 0, 0), ANY, ANY, ANY,
    ]),
    (false, [
        (Op::Ge, 16, 2_218_106_766_884, 0, 12), (Op::Le, 78, -3_994_395_698, 0, 12),
        (Op::Eq, 80, 3, 0, 0), ANY, ANY, ANY,
    ]),
    (true, [
        (Op::Le, 16, -2_583_474_519_884, 0, 12), (Op::Ge, 40, 603_485_537_608, 0, 12),
        (Op::In, 41, 0, 7, 0), ANY, ANY, ANY,
    ]),
    (true, [
        (Op::Le, 68, 6_862_995_766, 0, 10), (Op::Le, 17, -2_808_854_839, 0, 9),
        (Op::Le, 6, 3_473_998_504, 0, 12), (Op::Eq, 41, 6, 0, 0), ANY, ANY,
    ]),
    (true, [
        (Op::Le, 69, 2_019_209_860_754, 0, 11), (Op::Le, 75, 216_880_790_466, 0, 12),
        (Op::Eq, 41, 10, 0, 0), ANY, ANY, ANY,
    ]),
    (false, [
        (Op::Le, 52, 0, 0, 0), (Op::Le, 76, -1_457_487_435_051, 0, 12), (Op::Eq, 41, 10, 0, 0),
        ANY, ANY, ANY,
    ]),
    (true, [
        (Op::Le, 4, -133_228_681_061, 0, 12),
        (Op::Between, 76, -470_588_798_961, -128_994_916_769, 12), (Op::Eq, 65, 1, 0, 0), ANY,
        ANY, ANY,
    ]),
    (true, [
        (Op::Le, 69, 6_753_473_519_311, 0, 12), (Op::Ge, 43, 5_286_416_861_829, 0, 12),
        (Op::Eq, 41, 3, 0, 0), ANY, ANY, ANY,
    ]),
    (false, [
        (Op::Ge, 46, 8_980_044_543_946, 0, 11), (Op::Le, 60, 60_198_393_960_611, 0, 12),
        (Op::Eq, 41, 7, 0, 0), ANY, ANY, ANY,
    ]),
    (true, [
        (Op::Le, 68, 15_251_559_689_203, 0, 12), (Op::Ge, 72, 102_022_412_698_827, 0, 12),
        (Op::Eq, 41, 16, 0, 0), ANY, ANY, ANY,
    ]),
    (true, [
        (Op::Le, 69, 13_103_119_286_977, 0, 12), (Op::Ge, 19, 2_255_084_993_412, 0, 12),
        (Op::Eq, 41, 22, 0, 0), ANY, ANY, ANY,
    ]),
    (false, [
        (Op::Ge, 69, 89_373_499_384_241, 0, 12), (Op::Le, 68, 70_210_545_155_072, 0, 12),
        (Op::Eq, 41, 6, 0, 0), ANY, ANY, ANY,
    ]),
    (false, [
        (Op::Ge, 69, 92_398_919_564_528, 0, 12), (Op::Le, 68, 78_724_397_723_401, 0, 12),
        (Op::Eq, 41, 21, 0, 0), ANY, ANY, ANY,
    ]),
    (true, [
        (Op::Le, 63, 20_878_329_763_064, 0, 12), (Op::Le, 76, -765_737_264_252, 0, 12),
        (Op::Eq, 80, 0, 0, 0), ANY, ANY, ANY,
    ]),
    (true, [
        (Op::Le, 28, 1_091_384_106, 0, 12), (Op::Le, 10, -1_817_603_669, 0, 11),
        (Op::Ge, 77, 2_919_388_313, 0, 9), (Op::Eq, 41, 8, 0, 0), ANY, ANY,
    ]),
    (false, [
        (Op::Ge, 26, -212_151_614, 0, 12), (Op::Eq, 41, 12, 0, 0),
        (Op::Le, 4, 1_061_948_757, 0, 9), (Op::Eq, 80, 4, 0, 0), ANY, ANY,
    ]),
    (false, [
        (Op::Ge, 17, 3_068_414_947, 0, 9), (Op::Le, 18, 1_903_776_951, 0, 9),
        (Op::Le, 28, 3_033_879_208, 0, 11), (Op::Eq, 41, 6, 0, 0), ANY, ANY,
    ]),
    (false, [
        (Op::Ge, 60, 7_703_278_368, 0, 8), (Op::Eq, 41, 11, 0, 0),
        (Op::Le, 77, 2_919_374_564, 0, 9), (Op::Eq, 80, 5, 0, 0), ANY, ANY,
    ]),
    (true, [
        (Op::Le, 12, -188_547_426_560_093, 0, 12), (Op::Le, 51, -822_178_298_076, 0, 12),
        (Op::Eq, 41, 17, 0, 0), ANY, ANY, ANY,
    ]),
    (false, [
        (Op::Ge, 4, 1_202_805_912_201, 0, 12), (Op::Le, 78, -430_553_703, 0, 12),
        (Op::Eq, 41, 16, 0, 0), ANY, ANY, ANY,
    ]),
    (false, [
        (Op::Ge, 68, 99_185_382_275_768, 0, 12), (Op::Le, 79, -9_431_026_424, 0, 12),
        (Op::Eq, 41, 16, 0, 0), ANY, ANY, ANY,
    ]),
    (true, [
        (Op::Le, 9, -7_111_471_533, 0, 12), (Op::Ge, 31, 1, 0, 0), (Op::Eq, 64, 1, 0, 0), ANY,
        ANY, ANY,
    ]),
    (true, [
        (Op::Le, 16, -2_092_705_762_683, 0, 12), (Op::Ge, 45, 4_216_605_253, 0, 12),
        (Op::Eq, 80, 5, 0, 0), ANY, ANY, ANY,
    ]),
    (false, [
        (Op::Ge, 69, 94_302_371_417_231, 0, 12), (Op::Le, 58, -384_754_229, 0, 12),
        (Op::Eq, 80, 1, 0, 0), ANY, ANY, ANY,
    ]),
    (false, [
        (Op::Ge, 37, 6, 0, 0), (Op::Ge, 62, 70, 0, 0), (Op::Ge, 50, 15, 0, 1),
        (Op::Ge, 7, 75, 0, 2), (Op::In, 41, 11, 15, 0), (Op::Eq, 80, 5, 0, 0),
    ]),
    (true, [
        (Op::Le, 63, 2_226_951_785, 0, 8), (Op::Le, 42, 1_510_480_269, 0, 13),
        (Op::Ge, 14, -1_110_492_288, 0, 7), (Op::Eq, 41, 16, 0, 0), ANY, ANY,
    ]),
    (true, [
        (Op::Le, 69, 5_443_385_043, 0, 10), (Op::Eq, 41, 5, 0, 0),
        (Op::Le, 61, 3_911_398_072, 0, 8), (Op::Eq, 80, 0, 0, 0), ANY, ANY,
    ]),
    (false, [
        (Op::Ge, 18, 3_429_940_156, 0, 9), (Op::Le, 8, 5_753_340_807, 0, 12),
        (Op::Ge, 61, 6_795_174_536, 0, 8), (Op::Eq, 80, 1, 0, 0), ANY, ANY,
    ]),
    (true, [
        (Op::Le, 12, -2_434_867_158, 0, 7), (Op::Le, 2, 1_277_921_698, 0, 12),
        (Op::Le, 47, 3_322_794_653, 0, 8), (Op::Eq, 41, 7, 0, 0), ANY, ANY,
    ]),
    (true, [
        (Op::Le, 68, 2_062_588_143_616, 0, 12), (Op::Le, 46, 9_622_580_642_198, 0, 12),
        (Op::Eq, 41, 1, 0, 0), ANY, ANY, ANY,
    ]),
    (true, [
        (Op::Le, 16, -2_742_641_598_641, 0, 12), (Op::Ge, 46, 55_226_633_333_302, 0, 12),
        (Op::In, 41, 20, 23, 0), ANY, ANY, ANY,
    ]),
    (false, [
        (Op::Ge, 15, 981_752_292_899, 0, 12), (Op::Ge, 72, 151_279_003_962, 0, 12),
        (Op::Eq, 41, 19, 0, 0), ANY, ANY, ANY,
    ]),
    (false, [
        (Op::Ge, 15, 981_752_292_899, 0, 12), (Op::Ge, 72, 151_279_003_962, 0, 12),
        (Op::Eq, 41, 4, 0, 0), ANY, ANY, ANY,
    ]),
    (false, [
        (Op::Ge, 22, 41_798_655_327, 0, 12), (Op::Ge, 0, 6_734_015_313_961, 0, 12), ANY, ANY, ANY,
        ANY,
    ]),
    (false, [
        (Op::Ge, 46, 90_605_260_301_048, 0, 12), (Op::Le, 48, 81_594_378_791_001, 0, 12),
        (Op::Eq, 80, 0, 0, 0), ANY, ANY, ANY,
    ]),
    (false, [
        (Op::Ge, 69, 98_632_249_177_409, 0, 12), (Op::Ge, 46, 90_605_260_301_048, 0, 12),
        (Op::Eq, 41, 13, 0, 0), ANY, ANY, ANY,
    ]),
    (true, [
        (Op::Le, 68, 5_418_823_304_347, 0, 12), (Op::Ge, 19, 1_731_253_361_596, 0, 12),
        (Op::Eq, 41, 17, 0, 0), ANY, ANY, ANY,
    ]),
    (true, [
        (Op::Le, 17, -2_126_060_052_744, 0, 12), (Op::Le, 51, -975_669_526_392, 0, 12),
        (Op::Eq, 41, 6, 0, 0), ANY, ANY, ANY,
    ]),
    (false, [
        (Op::Ge, 62, 8_721_365_662_096, 0, 11), (Op::In, 80, 6, 6, 0), (Op::Eq, 41, 2, 0, 0), ANY,
        ANY, ANY,
    ]),
    (true, [
        (Op::Le, 16, -1_595_966_140_347, 0, 12), (Op::Le, 51, -1_397_975_506_363, 0, 12),
        (Op::Eq, 41, 9, 0, 0), ANY, ANY, ANY,
    ]),
    (true, [
        (Op::Le, 27, 673_519_805, 0, 12), (Op::Le, 78, -11_317_995_852, 0, 12),
        (Op::Eq, 80, 6, 0, 0), ANY, ANY, ANY,
    ]),
    (false, [
        (Op::Ge, 16, 1_584_018_061_175, 0, 12), (Op::Le, 25, -37_571_861_183, 0, 12),
        (Op::In, 41, 7, 14, 0), ANY, ANY, ANY,
    ]),
    (false, [
        (Op::Ge, 12, 211_785_069_809_589, 0, 12), (Op::Ge, 7, 1, 0, 0), (Op::Eq, 80, 6, 0, 0),
        ANY, ANY, ANY,
    ]),
    (false, [
        (Op::Ge, 62, 79_381_448_231_167, 0, 12), (Op::Le, 78, -1_855_155_415, 0, 12),
        (Op::In, 41, 7, 14, 0), ANY, ANY, ANY,
    ]),
    (false, [
        (Op::Ge, 62, 79_381_448_231_167, 0, 12), (Op::Le, 78, -1_855_155_415, 0, 12),
        (Op::Eq, 80, 2, 0, 0), ANY, ANY, ANY,
    ]),
    (false, [
        (Op::Ge, 17, 2_801_397_412_222, 0, 12), (Op::Le, 79, -7_352_033_255, 0, 12),
        (Op::In, 41, 20, 23, 0), ANY, ANY, ANY,
    ]),
    (true, [
        (Op::Le, 63, 22_349_039_721_054, 0, 12), (Op::Le, 51, -1_243_294_430_995, 0, 12),
        (Op::In, 41, 20, 23, 0), ANY, ANY, ANY,
    ]),
    (false, [
        (Op::Ge, 4, 944_008_017_013, 0, 12), (Op::Le, 44, -836_071_568, 0, 12),
        (Op::In, 41, 0, 7, 0), ANY, ANY, ANY,
    ]),
    (false, [
        (Op::Ge, 69, 90_414_132_730_189, 0, 12), (Op::Le, 35, 0, 0, 0), (Op::In, 41, 0, 7, 0),
        ANY, ANY, ANY,
    ]),
    (false, [
        (Op::Ge, 69, 90_414_132_730_189, 0, 12), (Op::Le, 68, 61_448_545_250_073, 0, 12),
        (Op::In, 41, 0, 7, 0), ANY, ANY, ANY,
    ]),
    (true, [
        (Op::Le, 69, 1_644_587_669, 0, 9), (Op::Le, 4, -24_090_522, 0, 8),
        (Op::Ge, 43, 1_797_752_809, 0, 11), (Op::In, 41, 20, 23, 0), ANY, ANY,
    ]),
    (true, [
        (Op::Le, 30, 5_704_541_149, 0, 13), (Op::Le, 12, -2_138_206_725, 0, 7),
        (Op::Ge, 70, 2_887_028_121, 0, 9), (Op::Eq, 80, 5, 0, 0), ANY, ANY,
    ]),
    (true, [
        (Op::Le, 17, -2_346_311_048, 0, 9), (Op::Le, 42, 2_645_309_807, 0, 14),
        (Op::Ge, 8, -7_253_030_737, 0, 12), (Op::Eq, 41, 9, 0, 0), ANY, ANY,
    ]),
    (false, [
        (Op::Ge, 68, 9_536_043_284, 0, 8), (Op::Ge, 44, 2_366_750_995, 0, 12),
        (Op::Ge, 17, 2_046_146_229, 0, 9), (Op::Eq, 41, 17, 0, 0), ANY, ANY,
    ]),
    (false, [
        (Op::Ge, 68, 99_566_819_537_935, 0, 12), (Op::Le, 51, -1_087_983_177_347, 0, 12),
        (Op::Eq, 41, 9, 0, 0), ANY, ANY, ANY,
    ]),
    (false, [
        (Op::Ge, 60, 82_623_793_495_996, 0, 12),
        (Op::Between, 2, 6_117_730_378, 7_861_395_294, 12), (Op::Eq, 64, 1, 0, 0), ANY, ANY, ANY,
    ]),
    (false, [
        (Op::Ge, 68, 9_258_675_389_879, 0, 11), (Op::Le, 15, 306_261_093_449, 0, 12),
        (Op::Eq, 41, 4, 0, 0), ANY, ANY, ANY,
    ]),
    (true, [
        (Op::Le, 16, -1_586_231_489_434, 0, 12), (Op::Le, 0, -7_107_013_931_768, 0, 12),
        (Op::Eq, 41, 10, 0, 0), ANY, ANY, ANY,
    ]),
    (false, [
        (Op::Ge, 48, 88_271_737_232_917, 0, 12), (Op::Le, 39, 39_537_406_427, 0, 12),
        (Op::Eq, 41, 4, 0, 0), ANY, ANY, ANY,
    ]),
    (true, [
        (Op::Le, 17, -2_774_117_242, 0, 9), (Op::Ge, 61, 3_137_459_303, 0, 8),
        (Op::Le, 30, 1_481_980_796, 0, 13), (Op::Eq, 80, 2, 0, 0), ANY, ANY,
    ]),
    (false, [
        (Op::Ge, 17, 2_783_849_801, 0, 9), (Op::Le, 18, 1_450_800_747, 0, 9),
        (Op::Ge, 56, 4_280_476_703, 0, 12), (Op::Eq, 41, 12, 0, 0), ANY, ANY,
    ]),
    (true, [
        (Op::Le, 29, 1_549_259_691, 0, 12), (Op::Ge, 78, 3_599_409_445, 0, 12),
        (Op::Eq, 80, 2, 0, 0), ANY, ANY, ANY,
    ]),
    (true, [
        (Op::Le, 17, -2_782_486_369_008, 0, 12),
        (Op::Between, 50, 780_090_159_838, 978_325_233_895, 12), (Op::Eq, 80, 4, 0, 0), ANY, ANY,
        ANY,
    ]),
    (true, [
        (Op::Le, 48, 1_348_098_558, 0, 8), (Op::Ge, 6, 1_206_610_733, 0, 11),
        (Op::Le, 3, 646_353_357, 0, 11), (Op::Eq, 41, 21, 0, 0), ANY, ANY,
    ]),
    (true, [
        (Op::Le, 70, 6_986_747_793, 0, 9), (Op::Le, 7, 3_305_785_124, 0, 11),
        (Op::Ge, 12, -8_988_475_125, 0, 8), (Op::Eq, 41, 19, 0, 0), ANY, ANY,
    ]),
    (true, [
        (Op::Le, 62, 22_509_371_455_114, 0, 12), (Op::Le, 11, -422_866_719_649, 0, 12),
        (Op::Eq, 41, 9, 0, 0), ANY, ANY, ANY,
    ]),
    (true, [
        (Op::Le, 16, -2_344_526_637_064, 0, 12), (Op::Ge, 46, 60_696_816_665_125, 0, 12),
        (Op::Eq, 41, 21, 0, 0), ANY, ANY, ANY,
    ]),
    (true, [
        (Op::Le, 17, -2_387_301_319_167, 0, 12), (Op::Ge, 13, -43_945_068_697_837, 0, 12),
        (Op::Eq, 64, 1, 0, 0), ANY, ANY, ANY,
    ]),
    (true, [
        (Op::Le, 17, -2_921_859_236_625, 0, 12), (Op::Le, 2, 1_519_053_115, 0, 12),
        (Op::Eq, 41, 17, 0, 0), ANY, ANY, ANY,
    ]),
    (false, [
        (Op::Ge, 62, 81_929_769_320_515, 0, 12), (Op::Le, 78, -748_194_933, 0, 12),
        (Op::In, 41, 7, 14, 0), ANY, ANY, ANY,
    ]),
    (true, [
        (Op::Le, 63, 37_670_808_563_448, 0, 12), (Op::Ge, 17, -382_943_541_103, 0, 12),
        (Op::Eq, 41, 11, 0, 0), ANY, ANY, ANY,
    ]),
    (false, [
        (Op::Ge, 68, 9_473_247_534_402, 0, 11), (Op::Ge, 1, 834_297_868_579, 0, 12),
        (Op::Eq, 41, 12, 0, 0), ANY, ANY, ANY,
    ]),
    (true, [
        (Op::Le, 63, 2_324_758_078, 0, 8), (Op::Ge, 28, 3_033_879_208, 0, 11),
        (Op::Le, 17, -2_304_024_546, 0, 9), (Op::Eq, 41, 22, 0, 0), ANY, ANY,
    ]),
    (false, [
        (Op::Ge, 4, 1_242_274_122, 0, 9), (Op::Eq, 80, 3, 0, 0),
        (Op::Le, 77, 2_098_463_339, 0, 9), (Op::In, 41, 20, 23, 0), ANY, ANY,
    ]),
    (true, [
        (Op::Le, 63, 18_570_891_908_685, 0, 12), (Op::In, 41, 2, 2, 0), (Op::Eq, 80, 5, 0, 0),
        ANY, ANY, ANY,
    ]),
    (true, [
        (Op::Le, 63, 20_878_329_763_064, 0, 12), (Op::Le, 11, -141_889_659_972, 0, 12),
        (Op::Eq, 41, 23, 0, 0), ANY, ANY, ANY,
    ]),
    (true, [
        (Op::Le, 12, -264_440_276_366_037, 0, 12), (Op::Ge, 40, 588_083_928_324, 0, 12),
        (Op::Eq, 80, 0, 0, 0), ANY, ANY, ANY,
    ]),
    (true, [
        (Op::Le, 4, -173_645_982, 0, 9), (Op::Eq, 41, 13, 0, 0),
        (Op::Ge, 48, 2_584_167_143, 0, 8), (Op::Eq, 80, 0, 0, 0), ANY, ANY,
    ]),
    (false, [
        (Op::Ge, 37, 6, 0, 0), (Op::Ge, 62, 70, 0, 0), (Op::Ge, 50, 15, 0, 1),
        (Op::Ge, 7, 75, 0, 2), (Op::In, 41, 11, 15, 0), (Op::Eq, 41, 15, 0, 0),
    ]),
    (false, [
        (Op::Ge, 17, 3_082_851_148, 0, 9), (Op::Eq, 80, 3, 0, 0),
        (Op::Le, 47, 6_652_204_642, 0, 8), (Op::In, 41, 20, 23, 0), ANY, ANY,
    ]),
    (true, [
        (Op::Le, 62, 22_509_371_455_114, 0, 12), (Op::Le, 11, -422_866_719_649, 0, 12),
        (Op::Eq, 41, 5, 0, 0), ANY, ANY, ANY,
    ]),
    (true, [
        (Op::Le, 15, 56_247_011_082, 0, 12), (Op::Ge, 32, 1, 0, 0), (Op::Eq, 41, 20, 0, 0), ANY,
        ANY, ANY,
    ]),
    (false, [
        (Op::Ge, 40, 80_253_046_606, 0, 11), (Op::Ge, 72, 15_903_107_859_896, 0, 12),
        (Op::Eq, 80, 3, 0, 0), ANY, ANY, ANY,
    ]),
    (true, [
        (Op::Le, 51, -1_536_658_910_705, 0, 12), (Op::Le, 75, 226_931_525_872, 0, 12),
        (Op::Eq, 41, 15, 0, 0), ANY, ANY, ANY,
    ]),
    (true, [
        (Op::Le, 40, 218_185_817_798, 0, 12), (Op::Le, 1, -6_984_363_537_212, 0, 12),
        (Op::Eq, 41, 0, 0, 0), ANY, ANY, ANY,
    ]),
    (true, [
        (Op::Le, 60, 19_168_638_833_873, 0, 12), (Op::In, 80, 6, 6, 0), (Op::Eq, 41, 15, 0, 0),
        ANY, ANY, ANY,
    ]),
    (true, [
        (Op::Le, 60, 19_168_638_833_873, 0, 12), (Op::In, 80, 6, 6, 0), (Op::Eq, 41, 6, 0, 0),
        ANY, ANY, ANY,
    ]),
    (true, [
        (Op::Le, 68, 1_371_097_431_342, 0, 12), (Op::Ge, 79, 10_852_199_486, 0, 12),
        (Op::Eq, 80, 0, 0, 0), ANY, ANY, ANY,
    ]),
    (false, [
        (Op::Ge, 63, 76_610_575_342_271, 0, 12), (Op::Le, 73, 24_786_183, 0, 12),
        (Op::Eq, 41, 6, 0, 0), ANY, ANY, ANY,
    ]),
    (false, [
        (Op::Ge, 63, 8_015_965_415_611, 0, 11), (Op::Le, 51, -979_734_943_474, 0, 12),
        (Op::Eq, 65, 1, 0, 0), ANY, ANY, ANY,
    ]),
    (false, [
        (Op::Ge, 69, 92_398_919_564_528, 0, 12), (Op::Le, 40, 426_292_967_876, 0, 12),
        (Op::Eq, 41, 0, 0, 0), ANY, ANY, ANY,
    ]),
    (false, [
        (Op::Ge, 63, 70_510_977_130_054, 0, 12), (Op::Le, 17, 838_389_255_232, 0, 12),
        (Op::Eq, 41, 2, 0, 0), ANY, ANY, ANY,
    ]),
    (false, [
        (Op::Ge, 60, 79_821_411_093_328, 0, 12), (Op::Ge, 0, 4_657_215_509_588, 0, 12),
        (Op::Eq, 41, 3, 0, 0), ANY, ANY, ANY,
    ]),
    (false, [
        (Op::Ge, 16, 1_722_377_357_787, 0, 12), (Op::Ge, 1, 25_309_101_221_933, 0, 12),
        (Op::Eq, 41, 17, 0, 0), ANY, ANY, ANY,
    ]),
    (false, [
        (Op::Ge, 63, 70_510_977_130_054, 0, 12), (Op::Le, 1, -20_780_423_400_716, 0, 12),
        (Op::Eq, 41, 19, 0, 0), ANY, ANY, ANY,
    ]),
    (true, [
        (Op::Le, 4, -2_340_435_963, 0, 10), (Op::Ge, 21, -4_431_553_752, 0, 12),
        (Op::Le, 46, 2_745_320_025, 0, 8), (Op::Eq, 41, 11, 0, 0), ANY, ANY,
    ]),
    (false, [
        (Op::Ge, 68, 9_536_043_284, 0, 8), (Op::Ge, 8, 1_911_639_022, 0, 11),
        (Op::Ge, 14, 3_011_917_591, 0, 7), (Op::Eq, 41, 18, 0, 0), ANY, ANY,
    ]),
    (false, [
        (Op::Ge, 68, 9_536_043_284, 0, 8), (Op::Ge, 8, 1_911_639_022, 0, 11),
        (Op::Ge, 14, 3_011_917_591, 0, 7), (Op::Eq, 41, 23, 0, 0), ANY, ANY,
    ]),
    (true, [
        (Op::Le, 28, 1_457_840_018, 0, 12), (Op::Le, 18, -3_385_888_687, 0, 9),
        (Op::Le, 21, -156_322_462, 0, 10), (Op::Eq, 41, 3, 0, 0), ANY, ANY,
    ]),
    (false, [
        (Op::Ge, 17, 2_783_849_801, 0, 9), (Op::Eq, 80, 5, 0, 0),
        (Op::Le, 26, -1_004_677_022, 0, 12), (Op::Eq, 41, 19, 0, 0), ANY, ANY,
    ]),
    (true, [
        (Op::Le, 69, 5_812_368_993_449, 0, 12), (Op::Ge, 20, -598_615_933, 0, 12),
        (Op::Eq, 41, 8, 0, 0), ANY, ANY, ANY,
    ]),
    (true, [
        (Op::Le, 58, -5_348_262_374, 0, 12), (Op::Ge, 60, 69_060_618_393_279, 0, 12),
        (Op::Eq, 80, 5, 0, 0), ANY, ANY, ANY,
    ]),
    (false, [
        (Op::Ge, 4, 1_202_805_912_201, 0, 12), (Op::Le, 51, 245_066_079_634, 0, 12),
        (Op::In, 41, 20, 23, 0), ANY, ANY, ANY,
    ]),
    (true, [
        (Op::Le, 40, 210_641_246_093, 0, 12), (Op::Ge, 29, 1_508_702_537, 0, 11),
        (Op::Eq, 80, 5, 0, 0), ANY, ANY, ANY,
    ]),
    (true, [
        (Op::Ge, 54, 6, 0, 0), (Op::Ge, 25, -3_833_684_053, 0, 12), (Op::Eq, 41, 3, 0, 0), ANY,
        ANY, ANY,
    ]),
    (true, [
        (Op::Le, 29, 1_086_987_122, 0, 12), (Op::Ge, 45, 1_725_415_755, 0, 12),
        (Op::Eq, 80, 3, 0, 0), ANY, ANY, ANY,
    ]),
    (true, [
        (Op::Le, 29, 268_702_787, 0, 12), (Op::Ge, 19, 189_989_821_024, 0, 11),
        (Op::Eq, 80, 6, 0, 0), ANY, ANY, ANY,
    ]),
    (false, [
        (Op::Ge, 12, 169_847_668_321_743, 0, 12), (Op::Ge, 79, 21_524_632_953, 0, 12),
        (Op::In, 41, 20, 23, 0), ANY, ANY, ANY,
    ]),
    (false, [
        (Op::Ge, 63, 73_931_490_170_639, 0, 12), (Op::Le, 51, -161_225_812_853, 0, 11),
        (Op::Eq, 80, 6, 0, 0), ANY, ANY, ANY,
    ]),
    (true, [
        (Op::Le, 48, 4_701_970_326_377, 0, 12), (Op::Le, 1, -5_344_432_465_957, 0, 12),
        (Op::Eq, 64, 1, 0, 0), ANY, ANY, ANY,
    ]),
    (false, [
        (Op::Ge, 17, 3_082_851_148, 0, 9), (Op::Eq, 80, 3, 0, 0),
        (Op::Le, 47, 6_652_204_642, 0, 8), (Op::Eq, 41, 12, 0, 0), ANY, ANY,
    ]),
    (false, [
        (Op::Ge, 63, 8_023_066_448, 0, 8), (Op::Le, 2, 953_452_966, 0, 12),
        (Op::Ge, 47, 7_827_879_154, 0, 8), (Op::Eq, 41, 5, 0, 0), ANY, ANY,
    ]),
    (true, [
        (Op::Le, 68, 6_862_995_766, 0, 10), (Op::Le, 17, -2_808_854_839, 0, 9),
        (Op::Le, 6, 3_473_998_504, 0, 12), (Op::Eq, 41, 21, 0, 0), ANY, ANY,
    ]),
    (false, [
        (Op::Ge, 68, 9_775_223_967_825, 0, 11), (Op::Le, 44, -433_596_303, 0, 12),
        (Op::In, 41, 20, 23, 0), ANY, ANY, ANY,
    ]),
    (true, [
        (Op::Le, 17, -2_126_060_052_744, 0, 12), (Op::Ge, 63, 37_066_174_537_088, 0, 12),
        (Op::Eq, 80, 4, 0, 0), ANY, ANY, ANY,
    ]),
    (false, [
        (Op::Le, 53, 0, 0, 0), (Op::Le, 11, -422_866_719_649, 0, 12), (Op::Eq, 41, 12, 0, 0), ANY,
        ANY, ANY,
    ]),
    (true, [
        (Op::Le, 62, 16_441_111_837_773, 0, 12), (Op::Ge, 60, 32_751_338_756_074, 0, 12),
        (Op::Eq, 80, 5, 0, 0), ANY, ANY, ANY,
    ]),
    (true, [
        (Op::Le, 62, 13_160_811_012_751, 0, 12), (Op::Le, 1, -75_450_257_826, 0, 11),
        (Op::In, 41, 20, 23, 0), ANY, ANY, ANY,
    ]),
    (true, [
        (Op::Le, 63, 27_937_723_759_111, 0, 12), (Op::Le, 11, -60_399_701_237, 0, 11),
        (Op::Eq, 41, 10, 0, 0), ANY, ANY, ANY,
    ]),
    (true, [
        (Op::Le, 60, 18_578_805_575_288, 0, 12), (Op::Le, 39, 31_888_152_245, 0, 11),
        (Op::In, 41, 20, 23, 0), ANY, ANY, ANY,
    ]),
    (true, [
        (Op::Le, 60, 18_578_805_575_288, 0, 12), (Op::In, 41, 9, 9, 0), (Op::Eq, 80, 3, 0, 0),
        ANY, ANY, ANY,
    ]),
    (false, [
        (Op::Ge, 36, 5, 0, 0), (Op::Le, 76, -1_457_487_435_051, 0, 12), (Op::Eq, 41, 6, 0, 0),
        ANY, ANY, ANY,
    ]),
    (true, [
        (Op::Le, 16, -2_187_038_250_278, 0, 12),
        (Op::Between, 50, 754_270_965_462, 952_041_479_441, 12), (Op::Eq, 41, 11, 0, 0), ANY, ANY,
        ANY,
    ]),
    (true, [
        (Op::Le, 36, 1, 0, 0), (Op::Le, 76, -1_457_487_435_051, 0, 12), (Op::Eq, 41, 2, 0, 0),
        ANY, ANY, ANY,
    ]),
    (true, [
        (Op::Le, 69, 13_599_250_472_473, 0, 12), (Op::Le, 1, -21_606_633_337_189, 0, 12),
        (Op::Eq, 41, 3, 0, 0), ANY, ANY, ANY,
    ]),
    (false, [
        (Op::Ge, 37, 4, 0, 0), (Op::Ge, 72, 50_208_999_999_976, 0, 12), (Op::Eq, 41, 9, 0, 0),
        ANY, ANY, ANY,
    ]),
    (false, [
        (Op::Ge, 69, 92_499_098_560_538, 0, 12), (Op::Le, 46, 3_931_642_972_534, 0, 11),
        (Op::Eq, 41, 14, 0, 0), ANY, ANY, ANY,
    ]),
    (true, [
        (Op::Ge, 54, 6, 0, 0), (Op::Ge, 1, 6_159_740_467_929, 0, 12), (Op::Eq, 41, 10, 0, 0), ANY,
        ANY, ANY,
    ]),
    (false, [
        (Op::Ge, 62, 84_181_207_583_347, 0, 12), (Op::Le, 15, 17_007_379_085, 0, 11),
        (Op::Eq, 41, 7, 0, 0), ANY, ANY, ANY,
    ]),
    (true, [
        (Op::Le, 4, 48_300_974_027, 0, 12), (Op::Ge, 27, 38_486_437_398, 0, 12),
        (Op::Eq, 66, 1, 0, 0), ANY, ANY, ANY,
    ]),
    (true, [
        (Op::Le, 36, 0, 0, 0), (Op::Le, 76, -992_604_162_908, 0, 12), (Op::Eq, 41, 22, 0, 0), ANY,
        ANY, ANY,
    ]),
    (false, [
        (Op::Ge, 16, 2_120_054_690_474, 0, 12), (Op::Le, 46, 30_058_809_486_348, 0, 12),
        (Op::Eq, 41, 12, 0, 0), ANY, ANY, ANY,
    ]),
    (true, [
        (Op::Le, 4, -270_218_913_246, 0, 12), (Op::Le, 51, 1_402_973_124_746, 0, 12),
        (Op::Eq, 80, 1, 0, 0), ANY, ANY, ANY,
    ]),
    (false, [
        (Op::Ge, 37, 6, 0, 0), (Op::Ge, 73, 7_814_538_794, 0, 12), (Op::In, 41, 20, 23, 0), ANY,
        ANY, ANY,
    ]),
    (true, [
        (Op::Le, 16, -2_289_885_513_984, 0, 12), (Op::Ge, 34, 6, 0, 0), (Op::Eq, 41, 20, 0, 0),
        ANY, ANY, ANY,
    ]),
    (true, [
        (Op::Le, 16, -265_908_861_946, 0, 11), (Op::Le, 19, 607_016_051_968, 0, 12),
        (Op::Eq, 80, 5, 0, 0), ANY, ANY, ANY,
    ]),
    (true, [
        (Op::Le, 69, 9_590_121_893_836, 0, 12), (Op::Le, 11, -887_448_173_015, 0, 12),
        (Op::Eq, 41, 21, 0, 0), ANY, ANY, ANY,
    ]),
    (true, [
        (Op::Le, 16, -1_595_966_140_347, 0, 12), (Op::Le, 6, 12_687_105, 0, 12),
        (Op::Eq, 41, 15, 0, 0), ANY, ANY, ANY,
    ]),
    (false, [
        (Op::Ge, 69, 94_958_449_012_797, 0, 12), (Op::Le, 15, 396_308_918_755, 0, 12),
        (Op::Eq, 65, 1, 0, 0), ANY, ANY, ANY,
    ]),
    (true, [
        (Op::Le, 17, -2_596_399_053_377, 0, 12), (Op::Le, 51, -52_398_857_241, 0, 12),
        (Op::Eq, 41, 18, 0, 0), ANY, ANY, ANY,
    ]),
    (false, [
        (Op::Ge, 12, 211_785_069_809_589, 0, 12), (Op::Ge, 7, 1, 0, 0), (Op::Eq, 80, 4, 0, 0),
        ANY, ANY, ANY,
    ]),
    (false, [
        (Op::Ge, 63, 70_644_314_127_054, 0, 12), (Op::Le, 13, 24_856_599_717_988, 0, 12),
        (Op::In, 41, 20, 23, 0), ANY, ANY, ANY,
    ]),
    (true, [
        (Op::Le, 69, 4_960_424_772_543, 0, 12), (Op::Ge, 1, 23_119_074_919_152, 0, 12),
        (Op::Eq, 80, 2, 0, 0), ANY, ANY, ANY,
    ]),
    (true, [
        (Op::Le, 69, 1_563_149_366_712, 0, 12), (Op::Ge, 78, 1_902_549_548, 0, 12),
        (Op::Eq, 80, 1, 0, 0), ANY, ANY, ANY,
    ]),
    (false, [
        (Op::Ge, 62, 81_929_769_320_515, 0, 12), (Op::Le, 11, -885_183_402_308, 0, 12),
        (Op::Eq, 80, 0, 0, 0), ANY, ANY, ANY,
    ]),
    (true, [
        (Op::Le, 63, 19_860_943_343_755, 0, 12), (Op::Le, 7, 4_232_647_518, 0, 12),
        (Op::Eq, 80, 4, 0, 0), ANY, ANY, ANY,
    ]),
    (true, [
        (Op::Le, 68, 5_066_458_518, 0, 10), (Op::Eq, 80, 5, 0, 0),
        (Op::Ge, 42, 9_290_936_623, 0, 17), (Op::Eq, 41, 21, 0, 0), ANY, ANY,
    ]),
    (false, [
        (Op::Ge, 68, 9_536_043_284, 0, 8), (Op::Ge, 56, 1_939_351_557, 0, 11),
        (Op::Eq, 80, 4, 0, 0), (Op::Eq, 41, 16, 0, 0), ANY, ANY,
    ]),
    (false, [
        (Op::Ge, 62, 79_187_266_351_359, 0, 12), (Op::Ge, 73, 7_704_921_362, 0, 12),
        (Op::In, 41, 0, 7, 0), ANY, ANY, ANY,
    ]),
    (true, [
        (Op::Ge, 54, 3, 0, 0), (Op::Le, 62, 30, 0, 0), (Op::Ge, 50, 8, 0, 1),
        (Op::Ge, 7, 75, 0, 2), (Op::Eq, 80, 5, 0, 0), (Op::Eq, 41, 14, 0, 0),
    ]),
    (true, [
        (Op::Le, 12, -1_689_532_813, 0, 7), (Op::Le, 43, 1_349_188_119, 0, 11),
        (Op::Ge, 21, -5_575_910_157, 0, 12), (Op::Eq, 41, 12, 0, 0), ANY, ANY,
    ]),
    (false, [
        (Op::Ge, 25, -91_348_551, 0, 12), (Op::Ge, 74, 7_973_138_013, 0, 12),
        (Op::Eq, 66, 1, 0, 0), ANY, ANY, ANY,
    ]),
    (true, [
        (Op::Le, 68, 5_066_458_518, 0, 10), (Op::Eq, 80, 5, 0, 0),
        (Op::Ge, 42, 9_290_936_623, 0, 17), (Op::Eq, 41, 3, 0, 0), ANY, ANY,
    ]),
    (false, [
        (Op::Ge, 69, 92_398_919_564_528, 0, 12), (Op::Le, 67, -154_535_539_948, 0, 11),
        (Op::Eq, 41, 12, 0, 0), ANY, ANY, ANY,
    ]),
    (true, [
        (Op::Le, 27, 544_949_204, 0, 12), (Op::Ge, 71, 4_468_097_235, 0, 12),
        (Op::Eq, 80, 0, 0, 0), ANY, ANY, ANY,
    ]),
    (true, [
        (Op::Le, 63, 20_878_329_763_064, 0, 12), (Op::Le, 11, -141_889_659_972, 0, 12),
        (Op::Eq, 41, 9, 0, 0), ANY, ANY, ANY,
    ]),
    (true, [
        (Op::Le, 69, 13_103_119_286_977, 0, 12), (Op::Ge, 19, 2_255_084_993_412, 0, 12),
        (Op::Eq, 41, 20, 0, 0), ANY, ANY, ANY,
    ]),
    (true, [
        (Op::Le, 5, -13_135_821_846, 0, 12), (Op::Ge, 19, 2_080_444_997_831, 0, 12),
        (Op::Eq, 41, 14, 0, 0), ANY, ANY, ANY,
    ]),
    (false, [
        (Op::Ge, 37, 4, 0, 0), (Op::Ge, 62, 75, 0, 0), (Op::Ge, 50, 8, 0, 1),
        (Op::Ge, 7, 75, 0, 2), (Op::Eq, 41, 11, 0, 0), (Op::Eq, 80, 1, 0, 0),
    ]),
    (false, [
        (Op::Ge, 37, 4, 0, 0), (Op::Ge, 62, 75, 0, 0), (Op::Ge, 50, 8, 0, 1),
        (Op::Ge, 7, 75, 0, 2), (Op::Eq, 41, 11, 0, 0), (Op::Eq, 80, 6, 0, 0),
    ]),
    (true, [
        (Op::Ge, 54, 3, 0, 0), (Op::Le, 62, 30, 0, 0), (Op::Ge, 50, 15, 0, 1),
        (Op::Ge, 7, 75, 0, 2), (Op::Eq, 41, 21, 0, 0), (Op::Eq, 80, 1, 0, 0),
    ]),
    (true, [
        (Op::Le, 27, 940_217_931, 0, 12), (Op::Ge, 19, 2_222_113_870_768, 0, 12),
        (Op::Eq, 80, 2, 0, 0), ANY, ANY, ANY,
    ]),
    (true, [
        (Op::Ge, 54, 6, 0, 0), (Op::Le, 15, 45_742_666, 0, 12), (Op::Eq, 41, 3, 0, 0), ANY, ANY,
        ANY,
    ]),
    (false, [
        (Op::Ge, 62, 72_019_291_926_381, 0, 12), (Op::Le, 13, 2_433_220_298_786, 0, 11),
        (Op::In, 41, 20, 23, 0), ANY, ANY, ANY,
    ]),
    (false, [
        (Op::Ge, 4, 1_202_805_912_201, 0, 12), (Op::Le, 78, -993_286_689, 0, 12),
        (Op::Eq, 80, 1, 0, 0), ANY, ANY, ANY,
    ]),
    (true, [
        (Op::Le, 12, -163_848_507_305_154, 0, 12), (Op::Ge, 73, 7_704_921_362, 0, 12),
        (Op::Eq, 80, 1, 0, 0), ANY, ANY, ANY,
    ]),
    (false, [
        (Op::Ge, 12, 210_227_488_831_543, 0, 12), (Op::Le, 23, -4_814_800_565, 0, 12),
        (Op::In, 41, 0, 7, 0), ANY, ANY, ANY,
    ]),
    (true, [
        (Op::Le, 28, 5_733_286_026, 0, 12), (Op::Ge, 6, 1_649_142_991, 0, 11),
        (Op::Le, 45, -6_858_402_107, 0, 12), (Op::Eq, 65, 1, 0, 0), ANY, ANY,
    ]),
    (true, [
        (Op::Le, 40, 336_010_955_575, 0, 12), (Op::Le, 0, -22_999_073_893_274, 0, 12),
        (Op::Eq, 65, 1, 0, 0), ANY, ANY, ANY,
    ]),
    (false, [
        (Op::Le, 53, 0, 0, 0), (Op::Le, 11, -422_866_719_649, 0, 12), (Op::Eq, 41, 2, 0, 0), ANY,
        ANY, ANY,
    ]),
    (true, [
        (Op::Le, 69, 3_695_232_436_063, 0, 12), (Op::Ge, 1, 3_927_244_001_484, 0, 12),
        (Op::Eq, 41, 5, 0, 0), ANY, ANY, ANY,
    ]),
    (false, [
        (Op::Ge, 24, -53_521_742, 0, 12), (Op::Ge, 72, 56_497_175_141, 0, 12),
        (Op::Eq, 41, 0, 0, 0), ANY, ANY, ANY,
    ]),
    (false, [
        (Op::Ge, 37, 6, 0, 0), (Op::Le, 51, -1_315_533_522_184, 0, 12), (Op::Eq, 41, 2, 0, 0),
        ANY, ANY, ANY,
    ]),
    (false, [
        (Op::Ge, 24, -813_794_422, 0, 12), (Op::Le, 15, 0, 0, 0), (Op::Eq, 41, 15, 0, 0), ANY,
        ANY, ANY,
    ]),
    (true, [
        (Op::Le, 48, 17_929_017_212_354, 0, 12), (Op::Ge, 46, 6_985_818_583_021, 0, 11),
        (Op::Eq, 80, 1, 0, 0), ANY, ANY, ANY,
    ]),
    (false, [
        (Op::Ge, 62, 79_381_448_231_167, 0, 12), (Op::Ge, 49, 1_430, 0, 0), (Op::Eq, 80, 4, 0, 0),
        ANY, ANY, ANY,
    ]),
    (false, [
        (Op::Ge, 63, 70_644_314_127_054, 0, 12), (Op::Le, 13, 24_856_599_717_988, 0, 12),
        (Op::Eq, 80, 2, 0, 0), ANY, ANY, ANY,
    ]),
    (false, [
        (Op::Ge, 37, 4, 0, 0), (Op::Le, 78, -11_503_037_214, 0, 12), (Op::Eq, 64, 1, 0, 0), ANY,
        ANY, ANY,
    ]),
    (true, [
        (Op::Le, 17, -2_921_859_236_625, 0, 12), (Op::Le, 2, 1_519_053_115, 0, 12),
        (Op::Eq, 41, 13, 0, 0), ANY, ANY, ANY,
    ]),
    (true, [
        (Op::Le, 48, 4_701_970_326_377, 0, 12), (Op::Ge, 73, 5_051_760_632, 0, 12),
        (Op::Eq, 80, 4, 0, 0), ANY, ANY, ANY,
    ]),
    (true, [
        (Op::Le, 69, 1_644_587_669, 0, 9), (Op::Le, 4, -24_090_522, 0, 8),
        (Op::Ge, 43, 1_797_752_809, 0, 11), (Op::Eq, 80, 4, 0, 0), ANY, ANY,
    ]),
    (true, [(Op::Le, 48, 0, 0, 0), (Op::Ge, 33, 9, 0, 0), (Op::Eq, 80, 6, 0, 0), ANY, ANY, ANY]),
    (false, [
        (Op::Ge, 16, 1_584_018_061_175, 0, 12), (Op::Le, 25, -37_571_861_183, 0, 12),
        (Op::Eq, 66, 1, 0, 0), ANY, ANY, ANY,
    ]),
    (true, [
        (Op::Le, 17, -3_275_620_005_277, 0, 12),
        (Op::Between, 7, 348_371_370_028, 505_467_918_320, 12), (Op::Eq, 80, 1, 0, 0), ANY, ANY,
        ANY,
    ]),
    (true, [
        (Op::Le, 17, -2_487_372_513, 0, 9), (Op::Eq, 41, 11, 0, 0),
        (Op::Ge, 10, -4_965_357_046, 0, 12), (Op::Eq, 80, 5, 0, 0), ANY, ANY,
    ]),
    (true, [
        (Op::Le, 69, 7_366_825_932_134, 0, 12), (Op::Ge, 48, 56_429_411_536_562, 0, 12),
        (Op::Eq, 41, 10, 0, 0), ANY, ANY, ANY,
    ]),
    (false, [
        (Op::Ge, 4, 117_405_034_696, 0, 11), (Op::Ge, 74, 7_974_367_829, 0, 12),
        (Op::In, 41, 7, 14, 0), ANY, ANY, ANY,
    ]),
    (true, [
        (Op::Le, 16, -2_583_474_519_884, 0, 12), (Op::Le, 45, -5_856_406_184, 0, 12),
        (Op::In, 41, 20, 23, 0), ANY, ANY, ANY,
    ]),
    (false, [(Op::Ge, 37, 4, 0, 0), (Op::Le, 15, 29_402_232_243, 0, 12), ANY, ANY, ANY, ANY]),
    (true, [
        (Op::Le, 4, -270_218_913_246, 0, 12), (Op::Le, 51, 1_402_973_124_746, 0, 12),
        (Op::Eq, 66, 1, 0, 0), ANY, ANY, ANY,
    ]),
    (false, [
        (Op::Ge, 24, -2_077_937_651, 0, 12), (Op::Ge, 23, 69_654_406_809, 0, 12), ANY, ANY, ANY,
        ANY,
    ]),
    (true, [
        (Op::Le, 28, 1_091_384_106, 0, 12), (Op::Le, 10, -1_817_603_669, 0, 11),
        (Op::Ge, 77, 2_919_388_313, 0, 9), (Op::Eq, 80, 3, 0, 0), ANY, ANY,
    ]),
    (false, [
        (Op::Ge, 37, 6, 0, 0), (Op::Le, 51, -112_961_546_566, 0, 11), (Op::Eq, 41, 2, 0, 0), ANY,
        ANY, ANY,
    ]),
    (true, [
        (Op::Le, 16, -2_110_392_815_456, 0, 12), (Op::Ge, 1, 5_602_555_707_271, 0, 12),
        (Op::Eq, 66, 1, 0, 0), ANY, ANY, ANY,
    ]),
    (false, [
        (Op::Ge, 16, 1_694_065_028_932, 0, 12), (Op::Le, 24, -14_727_084_111, 0, 12),
        (Op::Eq, 66, 1, 0, 0), ANY, ANY, ANY,
    ]),
    (true, [
        (Op::Le, 4, -2_340_435_963, 0, 10), (Op::Ge, 21, -4_431_553_752, 0, 12),
        (Op::Le, 28, 1_091_384_768, 0, 12), (Op::Eq, 64, 1, 0, 0), ANY, ANY,
    ]),
    (true, [
        (Op::Ge, 54, 3, 0, 0), (Op::Le, 62, 30, 0, 0), (Op::Ge, 50, 8, 0, 1),
        (Op::Ge, 7, 75, 0, 2), (Op::Eq, 80, 5, 0, 0), (Op::Eq, 41, 4, 0, 0),
    ]),
    (false, [
        (Op::Ge, 46, 90_605_260_301_048, 0, 12), (Op::Ge, 51, 214_921_727_869, 0, 11),
        (Op::Eq, 41, 10, 0, 0), ANY, ANY, ANY,
    ]),
    (true, [
        (Op::Le, 16, -2_110_392_815_456, 0, 12), (Op::Ge, 1, 5_602_555_707_271, 0, 12),
        (Op::In, 41, 7, 14, 0), ANY, ANY, ANY,
    ]),
    (true, [
        (Op::Le, 17, -2_547_097_817, 0, 9), (Op::Le, 2, 1_795_740_443, 0, 12),
        (Op::Eq, 80, 5, 0, 0), (Op::Eq, 41, 4, 0, 0), ANY, ANY,
    ]),
    (true, [
        (Op::Le, 13, -296_373_970_792_508, 0, 12), (Op::Ge, 38, -3_927_732_991, 0, 12),
        (Op::Eq, 41, 9, 0, 0), ANY, ANY, ANY,
    ]),
    (true, [
        (Op::Le, 18, -2_447_691_672, 0, 9), (Op::Le, 3, 6_406_963_614, 0, 13),
        (Op::Le, 8, -4_124_824_725, 0, 12), ANY, ANY, ANY,
    ]),
    (true, [
        (Op::Le, 63, 2_324_758_078, 0, 8), (Op::Ge, 28, 3_033_879_208, 0, 11),
        (Op::Le, 17, -2_304_024_546, 0, 9), (Op::Eq, 41, 15, 0, 0), ANY, ANY,
    ]),
    (false, [
        (Op::Ge, 62, 79_187_266_351_359, 0, 12), (Op::Ge, 73, 7_704_921_362, 0, 12),
        (Op::Eq, 80, 3, 0, 0), ANY, ANY, ANY,
    ]),
    (true, [
        (Op::Le, 69, 3_994_763_574_046, 0, 12), (Op::Ge, 78, 2_288_868_958, 0, 12),
        (Op::Eq, 80, 3, 0, 0), ANY, ANY, ANY,
    ]),
    (false, [
        (Op::Ge, 62, 78_115_236_912_005, 0, 12), (Op::Le, 13, 47_198_310_116_171, 0, 12),
        (Op::In, 41, 20, 23, 0), ANY, ANY, ANY,
    ]),
    (true, [
        (Op::Le, 62, 17_596_607_453_968, 0, 12), (Op::Le, 19, 607_016_051_968, 0, 12),
        (Op::Eq, 80, 5, 0, 0), ANY, ANY, ANY,
    ]),
    (true, [
        (Op::Le, 16, -2_353_463_333_651, 0, 12),
        (Op::Between, 51, -464_821_755_383, -73_200_228_374, 12), (Op::Eq, 80, 2, 0, 0), ANY, ANY,
        ANY,
    ]),
    (true, [
        (Op::Le, 17, -3_275_620_005_277, 0, 12),
        (Op::Between, 7, 348_371_370_028, 505_467_918_320, 12), (Op::Eq, 41, 13, 0, 0), ANY, ANY,
        ANY,
    ]),
    (true, [
        (Op::Le, 15, 186_502_931, 0, 12), (Op::Ge, 73, 12_698_614_211, 0, 12),
        (Op::Eq, 80, 6, 0, 0), ANY, ANY, ANY,
    ]),
    (false, [
        (Op::Ge, 69, 83_360_348_764_515, 0, 12), (Op::Le, 76, -1_509_021_822_217, 0, 12),
        (Op::Eq, 41, 11, 0, 0), ANY, ANY, ANY,
    ]),
    (true, [
        (Op::Le, 55, -8_267_982_551, 0, 12), (Op::Ge, 25, -10_784_453_702, 0, 12),
        (Op::Eq, 80, 2, 0, 0), ANY, ANY, ANY,
    ]),
    (false, [
        (Op::Ge, 62, 78_148_726_107_272, 0, 12), (Op::Le, 46, 44_954_532_800_507, 0, 12),
        (Op::Eq, 80, 0, 0, 0), ANY, ANY, ANY,
    ]),
    (false, [
        (Op::Ge, 68, 9_887_542_775, 0, 8), (Op::Ge, 56, 2_486_548_978, 0, 11),
        (Op::Le, 42, 1_638_796_436, 0, 12), (Op::Eq, 41, 16, 0, 0), ANY, ANY,
    ]),
    (false, [
        (Op::Ge, 37, 4, 0, 0), (Op::Ge, 62, 75, 0, 0), (Op::Ge, 50, 1, 0, 0),
        (Op::Ge, 7, 75, 0, 2), (Op::Eq, 41, 1, 0, 0), (Op::Eq, 80, 2, 0, 0),
    ]),
    (false, [
        (Op::Ge, 37, 6, 0, 0), (Op::Ge, 62, 70, 0, 0), (Op::Ge, 50, 8, 0, 1),
        (Op::Ge, 7, 75, 0, 2), (Op::Eq, 80, 5, 0, 0), (Op::Eq, 65, 1, 0, 0),
    ]),
    (false, [
        (Op::Ge, 44, 1_865_948_161, 0, 12), (Op::Ge, 68, 9_887_542_722, 0, 8),
        (Op::Le, 59, 3_681_466_689, 0, 11), (Op::Eq, 41, 2, 0, 0), ANY, ANY,
    ]),
    (true, [
        (Op::Le, 4, -12_972_255_848, 0, 12), (Op::Ge, 25, -215_355_613, 0, 11),
        (Op::Eq, 41, 7, 0, 0), ANY, ANY, ANY,
    ]),
    (false, [
        (Op::Ge, 24, -317_708_634, 0, 12), (Op::Le, 15, 124_796_612_801, 0, 12),
        (Op::Eq, 41, 20, 0, 0), ANY, ANY, ANY,
    ]),
    (false, [
        (Op::Ge, 68, 9_635_554_424_836, 0, 11), (Op::Le, 44, -547_643_196, 0, 12),
        (Op::Eq, 80, 2, 0, 0), ANY, ANY, ANY,
    ]),
    (true, [
        (Op::Le, 4, -267_047_060_819, 0, 12), (Op::Le, 19, 656_844_883_173, 0, 12),
        (Op::Eq, 80, 0, 0, 0), ANY, ANY, ANY,
    ]),
    (true, [
        (Op::Le, 16, -2_092_705_762_683, 0, 12), (Op::Ge, 74, 11_732_866_886, 0, 12),
        (Op::Eq, 41, 21, 0, 0), ANY, ANY, ANY,
    ]),
    (false, [
        (Op::Ge, 16, 2_218_106_766_884, 0, 12), (Op::Le, 78, -3_994_395_698, 0, 12),
        (Op::Eq, 80, 1, 0, 0), ANY, ANY, ANY,
    ]),
    (true, [
        (Op::Le, 4, -174_372_887_633, 0, 12),
        (Op::Between, 50, 780_090_159_838, 978_325_233_895, 12), (Op::In, 41, 7, 14, 0), ANY, ANY,
        ANY,
    ]),
    (false, [
        (Op::Ge, 16, 2_082_088_491_926, 0, 12), (Op::Le, 45, -4_456_144_174, 0, 12),
        (Op::Eq, 65, 1, 0, 0), ANY, ANY, ANY,
    ]),
    (true, [
        (Op::Le, 16, -2_092_705_762_683, 0, 12), (Op::Ge, 45, 4_216_605_253, 0, 12),
        (Op::Eq, 41, 17, 0, 0), ANY, ANY, ANY,
    ]),
    (true, [
        (Op::Le, 30, 5_704_541_149, 0, 13), (Op::Le, 4, -24_090_522, 0, 8),
        (Op::Ge, 18, -2_696_757_558, 0, 9), (Op::Eq, 80, 4, 0, 0), ANY, ANY,
    ]),
    (true, [
        (Op::Le, 12, -2_434_867_158, 0, 7), (Op::Le, 3, 1_411_663_091, 0, 12),
        (Op::Ge, 6, 3_473_998_504, 0, 12), (Op::Eq, 80, 0, 0, 0), ANY, ANY,
    ]),
    (true, [
        (Op::Le, 16, -2_344_526_637_064, 0, 12), (Op::Ge, 46, 60_696_816_665_125, 0, 12),
        (Op::Eq, 41, 1, 0, 0), ANY, ANY, ANY,
    ]),
    (true, [
        (Op::Ge, 54, 4, 0, 0), (Op::Le, 76, -1_341_363_982_825, 0, 12), (Op::Eq, 41, 17, 0, 0),
        ANY, ANY, ANY,
    ]),
    (true, [
        (Op::Le, 16, -2_561_260_986_784, 0, 12), (Op::Ge, 4, 302_583_639_175, 0, 12),
        (Op::In, 41, 20, 23, 0), ANY, ANY, ANY,
    ]),
    (true, [
        (Op::Le, 36, 1, 0, 0), (Op::Le, 76, -1_457_487_435_051, 0, 12), (Op::Eq, 41, 3, 0, 0),
        ANY, ANY, ANY,
    ]),
    (true, [
        (Op::Le, 29, 254_012_653, 0, 11), (Op::Ge, 42, 2_459_555_014, 0, 12),
        (Op::Eq, 41, 19, 0, 0), ANY, ANY, ANY,
    ]),
    (false, [
        (Op::Ge, 68, 89_433_032_932_232, 0, 12), (Op::Ge, 1, 6_159_740_467_929, 0, 12),
        (Op::Eq, 41, 3, 0, 0), ANY, ANY, ANY,
    ]),
    (true, [
        (Op::Le, 27, 258_173_049, 0, 12), (Op::Le, 51, -1_315_533_522_184, 0, 12),
        (Op::Eq, 41, 11, 0, 0), ANY, ANY, ANY,
    ]),
    (false, [
        (Op::Ge, 69, 96_167_908_771_068, 0, 12), (Op::Ge, 49, 1_430, 0, 0), (Op::Eq, 80, 3, 0, 0),
        ANY, ANY, ANY,
    ]),
    (false, [
        (Op::Ge, 37, 4, 0, 0), (Op::Le, 78, -11_503_037_214, 0, 12), (Op::Eq, 80, 2, 0, 0), ANY,
        ANY, ANY,
    ]),
    (true, [
        (Op::Le, 63, 19_860_943_343_755, 0, 12), (Op::Le, 7, 4_232_647_518, 0, 12),
        (Op::Eq, 64, 1, 0, 0), ANY, ANY, ANY,
    ]),
    (true, [
        (Op::Le, 17, -1_824_148_755_859, 0, 12), (Op::Ge, 74, 15_517_215_474, 0, 12),
        (Op::Eq, 41, 18, 0, 0), ANY, ANY, ANY,
    ]),
    (true, [
        (Op::Le, 4, -116_199_896_442, 0, 12), (Op::Ge, 29, 17_910_613_907, 0, 12),
        (Op::Eq, 64, 1, 0, 0), ANY, ANY, ANY,
    ]),
    (true, [
        (Op::Le, 62, 13_443_623_461_596, 0, 12), (Op::Le, 19, 712_660_732_397, 0, 12),
        (Op::Eq, 41, 19, 0, 0), ANY, ANY, ANY,
    ]),
    (false, [
        (Op::Ge, 48, 92_538_838_851_052, 0, 12), (Op::Ge, 43, 16_649_945_784_544, 0, 12),
        (Op::Eq, 41, 18, 0, 0), ANY, ANY, ANY,
    ]),
    (true, [
        (Op::Le, 62, 16_815_653_800_848, 0, 12), (Op::Le, 51, -781_972_702_142, 0, 12),
        (Op::Eq, 80, 4, 0, 0), ANY, ANY, ANY,
    ]),
    (false, [
        (Op::Ge, 63, 88_325_740_640_992, 0, 12), (Op::Le, 13, 127_802_445_543_786, 0, 12),
        (Op::Eq, 41, 23, 0, 0), ANY, ANY, ANY,
    ]),
    (true, [
        (Op::Le, 12, -264_440_276_366_037, 0, 12),
        (Op::Between, 46, 44_954_532_800_507, 54_831_328_521_965, 12), (Op::Eq, 80, 0, 0, 0), ANY,
        ANY, ANY,
    ]),
    (true, [
        (Op::Le, 60, 24_975_510_474_295, 0, 12), (Op::Ge, 46, 39_788_932_118_881, 0, 12),
        (Op::Eq, 80, 0, 0, 0), ANY, ANY, ANY,
    ]),
    (false, [
        (Op::Ge, 27, 89_607_310_064, 0, 12), (Op::Le, 2, 13_586_365_309, 0, 12), ANY, ANY, ANY,
        ANY,
    ]),
    (true, [
        (Op::Le, 15, 160_650_711_145, 0, 12), (Op::Ge, 0, 4_657_215_509_588, 0, 12),
        (Op::Eq, 41, 23, 0, 0), ANY, ANY, ANY,
    ]),
    (true, [
        (Op::Le, 51, -1_536_658_910_705, 0, 12), (Op::Le, 22, -4_457_586_342, 0, 12),
        (Op::Eq, 41, 6, 0, 0), ANY, ANY, ANY,
    ]),
    (true, [
        (Op::Le, 16, -2_353_463_333_651, 0, 12),
        (Op::Between, 51, -464_821_755_383, -73_200_228_374, 12), (Op::Eq, 65, 1, 0, 0), ANY, ANY,
        ANY,
    ]),
    (true, [
        (Op::Le, 68, 15_251_559_689_203, 0, 12), (Op::Ge, 72, 102_022_412_698_827, 0, 12),
        (Op::Eq, 41, 7, 0, 0), ANY, ANY, ANY,
    ]),
    (false, [
        (Op::Ge, 37, 5, 0, 0), (Op::Le, 60, 44_439_233_481_289, 0, 12), (Op::Eq, 41, 0, 0, 0),
        ANY, ANY, ANY,
    ]),
    (true, [
        (Op::Le, 69, 15_180_011_010_737, 0, 12), (Op::Ge, 72, 102_022_412_698_827, 0, 12),
        (Op::Eq, 41, 23, 0, 0), ANY, ANY, ANY,
    ]),
    (true, [
        (Op::Le, 36, 0, 0, 0), (Op::Ge, 16, -73_657_496_892, 0, 11), (Op::Eq, 41, 15, 0, 0), ANY,
        ANY, ANY,
    ]),
    (false, [
        (Op::Ge, 37, 4, 0, 0), (Op::Le, 76, -1_385_238_691_491, 0, 12), (Op::Eq, 41, 4, 0, 0),
        ANY, ANY, ANY,
    ]),
    (false, [
        (Op::Ge, 48, 92_538_838_851_052, 0, 12), (Op::Le, 40, 378_420_082_698, 0, 12),
        (Op::Eq, 41, 4, 0, 0), ANY, ANY, ANY,
    ]),
    (true, [
        (Op::Le, 55, -8_267_982_551, 0, 12), (Op::Ge, 19, 2_255_084_993_412, 0, 12),
        (Op::Eq, 41, 18, 0, 0), ANY, ANY, ANY,
    ]),
    (false, [
        (Op::Ge, 69, 89_373_499_384_241, 0, 12), (Op::Le, 58, -2_741_635_191, 0, 12),
        (Op::Eq, 80, 1, 0, 0), ANY, ANY, ANY,
    ]),
    (false, [
        (Op::Ge, 16, 1_962_352_079_221, 0, 12), (Op::Le, 6, 391_630_717, 0, 12),
        (Op::Eq, 41, 1, 0, 0), ANY, ANY, ANY,
    ]),
    (true, [
        (Op::Le, 38, -1_555_592_433, 0, 12), (Op::Ge, 60, 74_332_784_822_998, 0, 12),
        (Op::In, 41, 7, 14, 0), ANY, ANY, ANY,
    ]),
    (false, [
        (Op::Ge, 68, 83_042_281_112_572, 0, 12), (Op::Ge, 33, 11, 0, 0), (Op::Eq, 41, 15, 0, 0),
        ANY, ANY, ANY,
    ]),
    (false, [
        (Op::Ge, 25, -3_202_986_598, 0, 12), (Op::Le, 44, -710_524_492, 0, 12),
        (Op::Eq, 41, 4, 0, 0), ANY, ANY, ANY,
    ]),
    (false, [
        (Op::Ge, 68, 9_887_542_775, 0, 8), (Op::Ge, 56, 2_486_548_978, 0, 11),
        (Op::Le, 42, 1_638_796_436, 0, 12), (Op::Eq, 41, 20, 0, 0), ANY, ANY,
    ]),
    (true, [
        (Op::Le, 69, 2_898_892_702, 0, 9), (Op::Le, 24, -2_994_954_907, 0, 11),
        (Op::Le, 48, 1_451_065_799, 0, 8), (Op::Eq, 41, 12, 0, 0), ANY, ANY,
    ]),
    (true, [
        (Op::Le, 17, -2_774_117_242, 0, 9), (Op::Ge, 21, -4_431_553_752, 0, 12),
        (Op::Le, 18, -3_385_888_687, 0, 9), (Op::Eq, 80, 4, 0, 0), ANY, ANY,
    ]),
    (false, [
        (Op::Ge, 10, 8_390_907_843, 0, 12), (Op::Ge, 24, -3_773_777_571, 0, 13),
        (Op::Le, 42, 0, 0, 0), (Op::Eq, 41, 9, 0, 0), ANY, ANY,
    ]),
    (true, [
        (Op::Le, 17, -2_304_024_546, 0, 9), (Op::Eq, 41, 22, 0, 0),
        (Op::Le, 71, 9_223_945_209, 0, 17), (Op::Eq, 80, 1, 0, 0), ANY, ANY,
    ]),
    (true, [
        (Op::Le, 61, 3_328_245_704, 0, 8), (Op::Ge, 57, -5_787_322_997, 0, 12),
        (Op::Le, 4, -173_645_982, 0, 9), (Op::Eq, 41, 6, 0, 0), ANY, ANY,
    ]),
    (false, [
        (Op::Ge, 63, 7_978_754_453, 0, 8), (Op::Eq, 80, 5, 0, 0),
        (Op::Le, 61, 6_495_549_342, 0, 8), (Op::Eq, 41, 9, 0, 0), ANY, ANY,
    ]),
    (true, [
        (Op::Le, 44, -2_650_404_386, 0, 12), (Op::Le, 68, 5_152_344_313, 0, 9),
        (Op::Le, 69, 3_478_803_314, 0, 9), (Op::Eq, 41, 11, 0, 0), ANY, ANY,
    ]),
    (true, [
        (Op::Le, 17, -2_354_298_009_924, 0, 12), (Op::Le, 19, 457_331_193_089, 0, 12),
        (Op::In, 41, 0, 7, 0), ANY, ANY, ANY,
    ]),
    (true, [
        (Op::Le, 40, 210_641_246_093, 0, 12), (Op::Ge, 23, 7_795_884_974, 0, 12),
        (Op::Eq, 41, 19, 0, 0), ANY, ANY, ANY,
    ]),
    (true, [
        (Op::Le, 35, 0, 0, 0), (Op::Ge, 20, 10_119_255_562, 0, 12), (Op::In, 41, 20, 23, 0), ANY,
        ANY, ANY,
    ]),
    (true, [
        (Op::Le, 58, -7_057_262_978, 0, 12), (Op::Ge, 13, 15_160_195_878_472, 0, 11),
        (Op::Eq, 80, 3, 0, 0), ANY, ANY, ANY,
    ]),
    (false, [
        (Op::Ge, 37, 5, 0, 0), (Op::Le, 46, 25_454_349_113_993, 0, 12), (Op::Eq, 41, 23, 0, 0),
        ANY, ANY, ANY,
    ]),
    (true, [
        (Op::Le, 4, -124_295_441_041, 0, 12),
        (Op::Between, 51, -464_230_165_361, -47_403_807_875, 12), (Op::Eq, 41, 11, 0, 0), ANY,
        ANY, ANY,
    ]),
    (true, [
        (Op::Le, 69, 4_056_578_989_833, 0, 12), (Op::Ge, 34, 6, 0, 0), (Op::Eq, 41, 21, 0, 0),
        ANY, ANY, ANY,
    ]),
    (false, [
        (Op::Ge, 24, -201_199_042, 0, 12), (Op::Le, 51, -1_563_227_737_634, 0, 12),
        (Op::Eq, 41, 7, 0, 0), ANY, ANY, ANY,
    ]),
    (true, [
        (Op::Le, 12, -249_930_452_912_772, 0, 12),
        (Op::Between, 48, 37_154_692_990_356, 62_524_777_166_172, 12), (Op::Eq, 41, 10, 0, 0),
        ANY, ANY, ANY,
    ]),
    (true, [
        (Op::Le, 27, 120_857_876, 0, 12), (Op::Ge, 1, 2_301_340_395_721, 0, 12),
        (Op::Eq, 41, 13, 0, 0), ANY, ANY, ANY,
    ]),
    (true, [
        (Op::Le, 16, -2_220_922_553_819, 0, 12), (Op::Ge, 44, 404_314_765, 0, 12),
        (Op::In, 41, 20, 23, 0), ANY, ANY, ANY,
    ]),
    (false, [
        (Op::Ge, 37, 6, 0, 0), (Op::Le, 48, 36_682_496_680_971, 0, 12), (Op::Eq, 80, 0, 0, 0),
        ANY, ANY, ANY,
    ]),
    (false, [
        (Op::Ge, 16, 2_082_088_491_926, 0, 12), (Op::Le, 45, -4_456_144_174, 0, 12),
        (Op::Eq, 41, 2, 0, 0), ANY, ANY, ANY,
    ]),
    (true, [
        (Op::Ge, 54, 5, 0, 0), (Op::Le, 62, 25, 0, 0), (Op::Ge, 50, 1, 0, 0),
        (Op::Ge, 7, 6, 0, 1), (Op::Eq, 80, 2, 0, 0), (Op::Eq, 41, 22, 0, 0),
    ]),
    (true, [
        (Op::Ge, 54, 4, 0, 0), (Op::Le, 62, 25, 0, 0), (Op::Ge, 50, 8, 0, 1),
        (Op::Ge, 7, 75, 0, 2), (Op::Eq, 41, 13, 0, 0), (Op::Eq, 80, 2, 0, 0),
    ]),
    (false, [
        (Op::Ge, 4, 1_242_274_122, 0, 9), (Op::Eq, 80, 3, 0, 0),
        (Op::Le, 77, 2_098_463_339, 0, 9), (Op::Eq, 41, 18, 0, 0), ANY, ANY,
    ]),
    (false, [
        (Op::Ge, 63, 8_023_066_448, 0, 8), (Op::Le, 2, 953_452_966, 0, 12),
        (Op::Ge, 47, 7_827_879_154, 0, 8), (Op::Eq, 41, 19, 0, 0), ANY, ANY,
    ]),
    (true, [
        (Op::Le, 68, 6_862_995_766, 0, 10), (Op::Le, 17, -2_808_854_839, 0, 9),
        (Op::Le, 6, 3_473_998_504, 0, 12), (Op::Eq, 41, 23, 0, 0), ANY, ANY,
    ]),
    (true, [
        (Op::Le, 28, 5_548_156_292, 0, 12), (Op::Le, 8, -3_657_074_613, 0, 11),
        (Op::Le, 46, 2_144_107_346, 0, 8), (Op::Eq, 41, 5, 0, 0), ANY, ANY,
    ]),
    (false, [
        (Op::Ge, 46, 90_605_260_301_048, 0, 12), (Op::Le, 7, 45_506_715_202, 0, 12),
        (Op::Eq, 41, 8, 0, 0), ANY, ANY, ANY,
    ]),
    (false, [
        (Op::Ge, 62, 67_899_626_426_361, 0, 12), (Op::Le, 46, 33_487_434_256_627, 0, 12),
        (Op::Eq, 41, 2, 0, 0), ANY, ANY, ANY,
    ]),
    (true, [
        (Op::Le, 40, 336_010_955_575, 0, 12), (Op::Le, 0, -22_999_073_893_274, 0, 12),
        (Op::Eq, 41, 5, 0, 0), ANY, ANY, ANY,
    ]),
    (true, [
        (Op::Le, 63, 12_039_352_357_177, 0, 12), (Op::In, 41, 3, 3, 0), (Op::Eq, 80, 1, 0, 0),
        ANY, ANY, ANY,
    ]),
    (true, [
        (Op::Le, 68, 25_103_448_275_861, 0, 12), (Op::Ge, 46, 7_969_050_284_032, 0, 11),
        (Op::Eq, 41, 2, 0, 0), ANY, ANY, ANY,
    ]),
    (false, [
        (Op::Ge, 48, 92_869_319_882_182, 0, 12), (Op::Le, 40, 407_243_075_194, 0, 12),
        (Op::Eq, 41, 16, 0, 0), ANY, ANY, ANY,
    ]),
    (false, [
        (Op::Ge, 36, 5, 0, 0), (Op::Le, 1, -39_147_158_960_848, 0, 12), (Op::Eq, 41, 23, 0, 0),
        ANY, ANY, ANY,
    ]),
    (true, [
        (Op::Le, 17, -1_840_110_258_471, 0, 12), (Op::Le, 1, -10_991_762_317_629, 0, 12),
        (Op::Eq, 65, 1, 0, 0), ANY, ANY, ANY,
    ]),
    (true, [
        (Op::Le, 60, 18_578_805_575_288, 0, 12), (Op::In, 80, 2, 2, 0), (Op::Eq, 41, 10, 0, 0),
        ANY, ANY, ANY,
    ]),
    (true, [
        (Op::Le, 5, -5_185_093_586, 0, 12), (Op::Ge, 12, 19_729_361_706_083, 0, 11),
        (Op::Eq, 80, 3, 0, 0), ANY, ANY, ANY,
    ]),
    (true, [
        (Op::Le, 69, 13_599_250_472_473, 0, 12), (Op::Le, 1, -21_606_633_337_189, 0, 12),
        (Op::Eq, 41, 12, 0, 0), ANY, ANY, ANY,
    ]),
    (false, [
        (Op::Ge, 69, 83_706_222_662_312, 0, 12), (Op::Le, 67, -2_782_739_943_152, 0, 12),
        (Op::Eq, 41, 4, 0, 0), ANY, ANY, ANY,
    ]),
    (true, [
        (Op::Le, 15, 120_614_853_726, 0, 12), (Op::Ge, 8, 70_114_758_373, 0, 12), ANY, ANY, ANY,
        ANY,
    ]),
    (false, [
        (Op::Ge, 22, 37_047_849_353, 0, 12), (Op::In, 41, 10, 10, 0), (Op::Eq, 80, 6, 0, 0), ANY,
        ANY, ANY,
    ]),
    (false, [
        (Op::Ge, 62, 8_721_365_662_096, 0, 11), (Op::In, 80, 6, 6, 0), (Op::Eq, 41, 11, 0, 0),
        ANY, ANY, ANY,
    ]),
    (false, [
        (Op::Ge, 48, 90_971_006_267_369, 0, 12), (Op::Le, 40, 365_308_166_414, 0, 12),
        (Op::Eq, 41, 6, 0, 0), ANY, ANY, ANY,
    ]),
    (true, [
        (Op::Ge, 76, 4_082_365_664_208, 0, 12),
        (Op::Between, 46, 44_701_987_979_408, 55_226_633_333_302, 12), (Op::Eq, 41, 13, 0, 0),
        ANY, ANY, ANY,
    ]),
    (false, [
        (Op::Ge, 15, 981_752_292_899, 0, 12), (Op::Ge, 19, 1_995_743_208_991, 0, 12),
        (Op::Eq, 41, 5, 0, 0), ANY, ANY, ANY,
    ]),
    (false, [
        (Op::Ge, 69, 89_551_972_381_464, 0, 12), (Op::Le, 67, -1_939_490_804_131, 0, 12),
        (Op::Eq, 41, 10, 0, 0), ANY, ANY, ANY,
    ]),
    (false, [
        (Op::Ge, 62, 66_597_829_192_963, 0, 12), (Op::Le, 46, 30_058_809_486_348, 0, 12),
        (Op::Eq, 41, 23, 0, 0), ANY, ANY, ANY,
    ]),
    (true, [
        (Op::Le, 16, -1_595_966_140_347, 0, 12), (Op::Le, 51, -1_397_975_506_363, 0, 12),
        (Op::Eq, 41, 11, 0, 0), ANY, ANY, ANY,
    ]),
    (true, [
        (Op::Le, 8, -50_353_430_971, 0, 12), (Op::Ge, 63, 38_043_238_023_799, 0, 12),
        (Op::Eq, 80, 3, 0, 0), ANY, ANY, ANY,
    ]),
    (false, [
        (Op::Ge, 69, 94_958_449_012_797, 0, 12), (Op::Le, 15, 396_308_918_755, 0, 12),
        (Op::Eq, 41, 19, 0, 0), ANY, ANY, ANY,
    ]),
    (false, [
        (Op::Ge, 17, 1_798_879_744_053, 0, 12), (Op::Le, 38, -282_718_339, 0, 12),
        (Op::Eq, 80, 5, 0, 0), ANY, ANY, ANY,
    ]),
    (false, [
        (Op::Ge, 63, 77_591_037_873_398, 0, 12), (Op::Le, 78, -1_367_816_057, 0, 12),
        (Op::Eq, 80, 0, 0, 0), ANY, ANY, ANY,
    ]),
    (false, [
        (Op::Ge, 4, 1_107_991_027_781, 0, 12), (Op::Ge, 49, 1_425, 0, 0), (Op::Eq, 80, 6, 0, 0),
        ANY, ANY, ANY,
    ]),
    (false, [
        (Op::Ge, 69, 93_669_724_770_642, 0, 12), (Op::Le, 24, -4_226_946_089, 0, 12),
        (Op::Eq, 41, 16, 0, 0), ANY, ANY, ANY,
    ]),
    (true, [
        (Op::Le, 48, 7_263_095_943_275, 0, 12), (Op::Le, 52, 0, 0, 0), (Op::Eq, 66, 1, 0, 0), ANY,
        ANY, ANY,
    ]),
    (true, [
        (Op::Le, 13, -176_966_019_376_678, 0, 12), (Op::Le, 1, -8_245_498_861_958, 0, 12),
        (Op::In, 41, 0, 7, 0), ANY, ANY, ANY,
    ]),
    (true, [
        (Op::Le, 48, 1_348_098_558, 0, 8), (Op::Ge, 6, 1_206_610_733, 0, 11),
        (Op::Le, 3, 646_353_357, 0, 11), (Op::Eq, 80, 3, 0, 0), ANY, ANY,
    ]),
    (true, [
        (Op::Ge, 54, 6, 0, 0), (Op::Ge, 1, 6_159_740_467_929, 0, 12), (Op::Eq, 80, 6, 0, 0), ANY,
        ANY, ANY,
    ]),
    (false, [
        (Op::Ge, 68, 97_251_019_949_653, 0, 12), (Op::Ge, 71, 1_007_899_334, 0, 12),
        (Op::In, 41, 0, 7, 0), ANY, ANY, ANY,
    ]),
    (true, [
        (Op::Le, 63, 21_766_483_332_328, 0, 12), (Op::Le, 2, 127_885_769, 0, 11),
        (Op::Eq, 41, 10, 0, 0), ANY, ANY, ANY,
    ]),
    (false, [
        (Op::Ge, 62, 78_148_726_107_272, 0, 12), (Op::Le, 46, 44_954_532_800_507, 0, 12),
        (Op::Eq, 64, 1, 0, 0), ANY, ANY, ANY,
    ]),
    (false, [
        (Op::Ge, 17, 2_783_849_801, 0, 9), (Op::Eq, 80, 5, 0, 0),
        (Op::Le, 26, -1_004_677_022, 0, 12), (Op::Eq, 41, 0, 0, 0), ANY, ANY,
    ]),
];

/// Rules on five minute ETH candles.
#[derive(Debug)]
pub struct EthRules542 {
    pub ensemble: Ensemble,
}

impl EthRules542 {
    pub fn new(min_votes: u32) -> (r: EthRules542)
        ensures
            r.well_formed(),
            r.ensemble.is_fresh(min_votes),
    {
        EthRules542 { ensemble: Ensemble::new(min_votes) }
    }
}

impl Strategy for EthRules542 {
    open spec fn well_formed(&self) -> bool {
        self.ensemble.well_formed()
    }

    open spec fn title(&self) -> Seq<char> {
        STRATEGY_NAME@
    }

    open spec fn answers(
        &self,
        first: Seq<Candle>,
        candle: Candle,
        signal: Option<Signal>,
    ) -> bool {
        strategy::signals(
            signal,
            self.ensemble.call_after(first, candle, FEATURES@, RULES@),
            candle.close_time_ms,
            STRATEGY_NAME@,
        )
    }

    open spec fn reads_snapshots(&self) -> bool {
        false
    }

    open spec fn answers_snapshot(
        &self,
        snapshot: MicrostructureSnapshot,
        signal: Option<Signal>,
    ) -> bool {
        signal is None
    }

    open spec fn has_considered(&self, snapshot: MicrostructureSnapshot) -> bool {
        true
    }

    open spec fn summary_is(&self, summary: Option<MicrostructureDecisionSummary>) -> bool {
        summary is None
    }

    open spec fn shown_rsi(&self) -> Option<Binary64> {
        self.ensemble.meters.rsi7.get()
    }

    open spec fn shown_series(&self) -> Option<bool> {
        candle::same_color_streak_of(self.ensemble.window@, 3)
    }

    open spec fn shown_atr(&self) -> Option<Binary64> {
        self.ensemble.meters.atr14.atr
    }

    open spec fn shown_extras(&self) -> Seq<char> {
        ensemble::votes_text(self.ensemble.last_votes, self.ensemble.min_votes)
    }

    fn name(&self) -> (r: &str) {
        STRATEGY_NAME
    }

    fn on_closed_candle(&mut self, candle: &Candle) -> (r: Option<Signal>)
        ensures
            final(self).ensemble.has_seen(old(self).ensemble, *candle),
            ensemble::decided(final(self).ensemble, *candle, FEATURES@, RULES@),
            strategy::signals(
                r,
                ensemble::call_of(final(self).ensemble.last_votes, old(self).ensemble.min_votes),
                candle.close_time_ms,
                STRATEGY_NAME@,
            ),
    {
        let call: Option<Call> = self.ensemble.decide(candle, &FEATURES, &RULES);
        proof {
            assert forall|first: Seq<Candle>, c: Candle, s: Option<Signal>| #[trigger]
                self.answers(first, c, s) == old(self).answers(seq![*candle] + first, c, s) by {
                ensemble::lemma_later(
                    old(self).ensemble,
                    self.ensemble,
                    *candle,
                    first,
                    c,
                    FEATURES@,
                    RULES@,
                );
            }
        }
        strategy::signal_for(call, candle.close_time_ms, STRATEGY_NAME)
    }

    fn warmup(&mut self, candle: &Candle)
        ensures
            final(self).ensemble.has_seen(old(self).ensemble, *candle),
            final(self).ensemble.last_votes == old(self).ensemble.last_votes,
    {
        self.ensemble.feed(candle);
        proof {
            assert forall|first: Seq<Candle>, c: Candle, s: Option<Signal>| #[trigger]
                self.answers(first, c, s) == old(self).answers(seq![*candle] + first, c, s) by {
                ensemble::lemma_later(
                    old(self).ensemble,
                    self.ensemble,
                    *candle,
                    first,
                    c,
                    FEATURES@,
                    RULES@,
                );
            }
        }
    }

    fn requires_microstructure(&self) -> (r: bool) {
        false
    }

    fn on_microstructure_snapshot(&mut self, snapshot: &MicrostructureSnapshot) -> (r: Option<
        Signal,
    >) {
        None
    }

    fn last_microstructure_decision_summary(&self) -> (r: Option<
        MicrostructureDecisionSummary,
    >) {
        None
    }

    fn current_rsi(&self) -> (r: Option<Binary64>) {
        self.ensemble.meters.rsi7.get()
    }

    fn current_series(&self) -> (r: Option<bool>) {
        candle::same_color_streak(&self.ensemble.window, 3)
    }

    fn current_atr(&self) -> (r: Option<Binary64>) {
        self.ensemble.meters.atr14.raw()
    }

    fn candle_log_extras(&self) -> (r: String) {
        ensemble::describe_votes(self.ensemble.last_votes, self.ensemble.min_votes)
    }
}

} // verus!
