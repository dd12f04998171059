//! Rules on hourly ETH candles.

use vstd::prelude::*;
use crate::binary64::Binary64;
use crate::candle;
use crate::candle::Candle;
use crate::ensemble;
use crate::ensemble::{ANY, Cond, Ensemble, Op};
use crate::features::Feature;
use crate::microstructure::MicrostructureSnapshot;
use crate::strategy;
use crate::strategy::{Call, MicrostructureDecisionSummary, Signal, Strategy};

verus! {

/// The name of the strategy.
pub const STRATEGY_NAME: &'static str = "eth_1h_rules_210_min_votes_1";

/// The features that the conditions number.
pub const FEATURES: [Feature; 74] = [
    Feature::AbsorptionDown, Feature::AbsorptionUp, Feature::Atr14Pct, Feature::BbPctb,
    Feature::Body, Feature::BodyAbsPct, Feature::BodyRatio, Feature::BodySum12, Feature::BodySum3,
    Feature::BodySum6, Feature::BreakoutEnergy, Feature::Cci12, Feature::Cci24,
    Feature::ClosePosition, Feature::CloseZ12, Feature::CloseZ24, Feature::Compression12To72,
    Feature::DistSma12, Feature::DistSma24, Feature::DistVwap24, Feature::DistVwap72,
    Feature::DonchHigh12, Feature::DonchHigh24, Feature::DonchHigh72, Feature::DonchLow12,
    Feature::DonchLow144, Feature::DonchLow24, Feature::DonchLow72, Feature::FlipCount12,
    Feature::FlipCount6, Feature::GreenCount6, Feature::GreenStreak, Feature::HaBody,
    Feature::HaBodyRatio, Feature::HaClosePosition, Feature::Hour, Feature::LowerWick,
    Feature::LowerWickBody, Feature::MacdHistPct, Feature::MacdPct, Feature::Mfi14,
    Feature::Mfi21, Feature::Mfi8, Feature::MinuteOfDay, Feature::RangeAtr14,
    Feature::RangePctZ24, Feature::RedCount3, Feature::RedCount6, Feature::RedStreak,
    Feature::Ret1, Feature::Ret12, Feature::Ret3, Feature::Ret6, Feature::Rsi14, Feature::Rsi7,
    Feature::Rsi8, Feature::SessionAsia, Feature::SessionLondon, Feature::SessionOverlapLondonUs,
    Feature::SessionUs, Feature::SignedVolumeRatio20, Feature::StochK12, Feature::StochK24,
    Feature::StochK72, Feature::UpperWick, Feature::UpperWickBody, Feature::VolumeBodyEfficiency,
    Feature::VolumeRangeEfficiency, Feature::VolumeRatio20, Feature::VolumeZ24,
    Feature::VwapSlope24, Feature::VwapSlope72, Feature::Weekday, Feature::WilliamsR12,
];

/// The rules: a color, green where true, and the conditions on which it is voted for.
pub const RULES: [(bool, [Cond; 6]); 210] = [
    (true, [
        (Op::Le, 61, 2_062_588_143_616, 0, 12), (Op::Le, 70, -28_555_905_248, 0, 12), ANY, ANY,
        ANY, ANY,
    ]),
    (true, [
        (Op::Ge, 37, 99_803_555_555_201, 0, 12),
        (Op::Between, 68, 697_599_259_542, 930_270_598_004, 12), (Op::Eq, 57, 1, 0, 0), ANY, ANY,
        ANY,
    ]),
    (false, [
        (Op::Ge, 9, 61_916_514_734, 0, 12), (Op::Le, 10, -70_623_222_976, 0, 12),
        (Op::Eq, 59, 1, 0, 0), ANY, ANY, ANY,
    ]),
    (true, [
        (Op::Le, 3, -25_147_324_264, 0, 12), (Op::Ge, 11, -9_037_920_447_042, 0, 11),
        (Op::In, 35, 7, 14, 0), ANY, ANY, ANY,
    ]),
    (true, [
        (Op::Le, 14, -2_289_885_513_984, 0, 12), (Op::Le, 16, 442_037_442_949, 0, 12),
        (Op::Eq, 72, 5, 0, 0), ANY, ANY, ANY,
    ]),
    (false, [
        (Op::Ge, 22, -4_419_256_154, 0, 12), (Op::Le, 0, -41_794_890_628_583, 0, 12), ANY, ANY,
        ANY, ANY,
    ]),
    (false, [
        (Op::Ge, 61, 97_251_019_949_653, 0, 12), (Op::Ge, 64, 1_007_899_334, 0, 12),
        (Op::Eq, 72, 5, 0, 0), ANY, ANY, ANY,
    ]),
    (false, [
        (Op::Ge, 54, 8_721_365_662_096, 0, 11), (Op::Le, 2, 5_354_469_061, 0, 12), ANY, ANY, ANY,
        ANY,
    ]),
    (true, [
        (Op::Le, 55, 27_937_723_759_111, 0, 12), (Op::Ge, 67, 46_027_537_425, 0, 12),
        (Op::In, 35, 7, 14, 0), ANY, ANY, ANY,
    ]),
    (true, [
        (Op::Le, 40, 1_530_340_668_771, 0, 11), (Op::Le, 33, 63_903_626_236, 0, 12),
        (Op::In, 35, 20, 23, 0), ANY, ANY, ANY,
    ]),
    (false, [
        (Op::Ge, 31, 5, 0, 0), (Op::Le, 69, -1_159_346_030_872, 0, 12), (Op::In, 35, 20, 23, 0),
        ANY, ANY, ANY,
    ]),
    (false, [
        (Op::Ge, 62, 83_706_222_662_312, 0, 12), (Op::Le, 24, 4_099_778_821, 0, 12), ANY, ANY,
        ANY, ANY,
    ]),
    (true, [
        (Op::Le, 62, 2_417_455_072_988, 0, 12),
        (Op::Between, 45, -614_786_474_045, 207_539_773_281, 12), (Op::Eq, 72, 0, 0, 0), ANY, ANY,
        ANY,
    ]),
    (false, [
        (Op::Ge, 62, 92_398_919_564_528, 0, 12), (Op::Ge, 66, 21_833_334_011, 0, 12),
        (Op::Eq, 72, 6, 0, 0), ANY, ANY, ANY,
    ]),
    (true, [
        (Op::Le, 61, 2_325_581_395, 0, 9), (Op::Eq, 35, 11, 0, 0),
        (Op::Ge, 73, -9_931_370_042, 0, 8), ANY, ANY, ANY,
    ]),
    (true, [
        (Op::Le, 55, 29_828_518_892_658, 0, 12), (Op::Le, 16, 517_302_629_848, 0, 12),
        (Op::Eq, 72, 5, 0, 0), ANY, ANY, ANY,
    ]),
    (true, [
        (Op::Le, 13, 100_215_016_184, 0, 12), (Op::Ge, 52, 65_040_574_296, 0, 12), ANY, ANY, ANY,
        ANY,
    ]),
    (true, [
        (Op::Le, 38, -2_650_404_386, 0, 12), (Op::Le, 61, 5_152_344_313, 0, 9),
        (Op::Le, 62, 3_478_803_314, 0, 9), (Op::Eq, 35, 20, 0, 0), ANY, ANY,
    ]),
    (true, [
        (Op::Le, 62, 3_695_232_436_063, 0, 12), (Op::Le, 70, -28_555_905_248, 0, 12),
        (Op::In, 35, 7, 14, 0), ANY, ANY, ANY,
    ]),
    (true, [
        (Op::Le, 61, 5_418_823_304_347, 0, 12), (Op::Le, 50, -90_923_229_416, 0, 12),
        (Op::Eq, 72, 0, 0, 0), ANY, ANY, ANY,
    ]),
    (true, [
        (Op::Le, 14, -2_187_038_250_278, 0, 12), (Op::Ge, 17, -4_060_754_253, 0, 12),
        (Op::Eq, 72, 5, 0, 0), ANY, ANY, ANY,
    ]),
    (true, [
        (Op::Le, 3, -25_147_324_264, 0, 12), (Op::Ge, 11, -9_037_920_447_042, 0, 11),
        (Op::Eq, 58, 1, 0, 0), ANY, ANY, ANY,
    ]),
    (true, [
        (Op::Le, 54, 28_488_182_057_264, 0, 12), (Op::Ge, 40, 60_696_816_665_125, 0, 12), ANY,
        ANY, ANY, ANY,
    ]),
    (true, [
        (Op::Le, 40, 2_144_107_346, 0, 8), (Op::Le, 13, 1_223_925_466, 0, 10),
        (Op::Ge, 37, 6_465_758_156, 0, 11), (Op::Eq, 57, 1, 0, 0), ANY, ANY,
    ]),
    (true, [(Op::Le, 52, -65_293_293_674, 0, 12), (Op::Le, 28, 2, 0, 0), ANY, ANY, ANY, ANY]),
    (true, [
        (Op::Le, 27, 6_837_778_067, 0, 12), (Op::Le, 54, 135_929_322, 0, 7),
        (Op::Ge, 15, -2_584_346_456, 0, 9), (Op::Eq, 35, 19, 0, 0), ANY, ANY,
    ]),
    (false, [
        (Op::Ge, 20, 98_883_002_663, 0, 12), (Op::Le, 43, 60, 0, 0), (Op::Eq, 72, 1, 0, 0), ANY,
        ANY, ANY,
    ]),
    (true, [
        (Op::Le, 54, 22_509_371_455_114, 0, 12), (Op::Ge, 15, -1_189_485_911_056, 0, 12),
        (Op::Eq, 59, 1, 0, 0), ANY, ANY, ANY,
    ]),
    (true, [
        (Op::Le, 49, -12_975_327_157, 0, 12), (Op::Ge, 40, 73_639_202_986_603, 0, 12),
        (Op::Eq, 72, 1, 0, 0), ANY, ANY, ANY,
    ]),
    (false, [
        (Op::Ge, 42, 90_971_006_267_369, 0, 12), (Op::Ge, 67, 28_499_754_838, 0, 12),
        (Op::In, 35, 20, 23, 0), ANY, ANY, ANY,
    ]),
    (true, [
        (Op::Le, 40, 12_370_381_786_246, 0, 12), (Op::Le, 10, -134_109_392_588, 0, 12), ANY, ANY,
        ANY, ANY,
    ]),
    (false, [
        (Op::Ge, 61, 9_536_043_284, 0, 8), (Op::Ge, 7, 2_432_417_868, 0, 11),
        (Op::Le, 36, 1_638_794_532, 0, 12), (Op::Eq, 35, 20, 0, 0), ANY, ANY,
    ]),
    (false, [
        (Op::Ge, 62, 96_167_908_771_068, 0, 12), (Op::Le, 22, -1_936_103_113, 0, 12),
        (Op::Eq, 35, 19, 0, 0), ANY, ANY, ANY,
    ]),
    (true, [
        (Op::Le, 55, 12_039_352_357_177, 0, 12), (Op::Ge, 12, -123_693_327_474_426, 0, 12), ANY,
        ANY, ANY, ANY,
    ]),
    (true, [(Op::Le, 15, -2_404_114_354_323, 0, 12), (Op::Ge, 29, 6, 0, 0), ANY, ANY, ANY, ANY]),
    (false, [
        (Op::Ge, 62, 89_551_972_381_464, 0, 12), (Op::Le, 13, 17_007_379_085, 0, 11),
        (Op::Eq, 72, 3, 0, 0), ANY, ANY, ANY,
    ]),
    (true, [
        (Op::Le, 25, 5_548_156_292, 0, 12), (Op::Le, 7, -3_657_074_613, 0, 11),
        (Op::Le, 40, 2_144_107_346, 0, 8), (Op::In, 35, 20, 23, 0), ANY, ANY,
    ]),
    (false, [
        (Op::Ge, 62, 96_060_395_753_965, 0, 12), (Op::Le, 44, 470_794_215_282, 0, 12), ANY, ANY,
        ANY, ANY,
    ]),
    (true, [
        (Op::Le, 55, 23_997_196_098_696, 0, 12), (Op::Ge, 67, 32_227_797_354, 0, 12),
        (Op::Eq, 59, 1, 0, 0), ANY, ANY, ANY,
    ]),
    (false, [
        (Op::Ge, 21, -152_070_846, 0, 11), (Op::Le, 40, 33_487_434_256_627, 0, 12),
        (Op::Eq, 56, 1, 0, 0), ANY, ANY, ANY,
    ]),
    (true, [
        (Op::Le, 14, -2_187_038_250_278, 0, 12), (Op::Ge, 65, 127_376_961_958, 0, 11), ANY, ANY,
        ANY, ANY,
    ]),
    (true, [(Op::Le, 61, 3_503_757_061_587, 0, 12), (Op::In, 35, 20, 20, 0), ANY, ANY, ANY, ANY]),
    (true, [
        (Op::Le, 24, 5_311_716_219, 0, 12), (Op::Ge, 39, 13_210_383_149, 0, 12), ANY, ANY, ANY,
        ANY,
    ]),
    (true, [
        (Op::Le, 14, -1_703_514_870_312, 0, 12), (Op::Ge, 18, 2_274_079_813, 0, 12),
        (Op::Eq, 72, 2, 0, 0), ANY, ANY, ANY,
    ]),
    (true, [
        (Op::Le, 61, 7_081_893_123_604, 0, 12), (Op::Le, 45, -975_669_526_392, 0, 12), ANY, ANY,
        ANY, ANY,
    ]),
    (false, [
        (Op::Ge, 19, 494_856_271, 0, 10), (Op::Le, 6, 73_463_020_111, 0, 12),
        (Op::Eq, 59, 1, 0, 0), ANY, ANY, ANY,
    ]),
    (true, [
        (Op::Le, 24, 2_650_174_002, 0, 12), (Op::Ge, 44, 3_036_678_151_198, 0, 12), ANY, ANY, ANY,
        ANY,
    ]),
    (false, [
        (Op::Ge, 61, 88_470_757_284_927, 0, 12), (Op::Ge, 64, 5_420_124_579, 0, 12),
        (Op::Eq, 35, 0, 0, 0), ANY, ANY, ANY,
    ]),
    (false, [
        (Op::Ge, 15, 1_806_249_404_164, 0, 12), (Op::Le, 71, -14_146_164_354, 0, 12),
        (Op::Eq, 35, 23, 0, 0), ANY, ANY, ANY,
    ]),
    (false, [(Op::Le, 47, 0, 0, 0), (Op::Le, 40, 3_931_642_972_534, 0, 11), ANY, ANY, ANY, ANY]),
    (false, [
        (Op::Ge, 62, 97_684_471_745_776, 0, 12), (Op::Le, 13, 848_302_105_456, 0, 12),
        (Op::Eq, 56, 1, 0, 0), ANY, ANY, ANY,
    ]),
    (true, [
        (Op::Le, 40, 2_144_107_346, 0, 8), (Op::Le, 13, 1_223_925_466, 0, 10),
        (Op::Ge, 37, 6_465_758_156, 0, 11), (Op::Eq, 72, 2, 0, 0), ANY, ANY,
    ]),
    (false, [
        (Op::Ge, 19, 494_856_271, 0, 10), (Op::Between, 9, -2_440_276_996, 2_598_746_782, 12),
        ANY, ANY, ANY, ANY,
    ]),
    (false, [
        (Op::Ge, 62, 94_958_449_012_797, 0, 12), (Op::Ge, 64, 3_815_742_964, 0, 12),
        (Op::Eq, 72, 1, 0, 0), ANY, ANY, ANY,
    ]),
    (true, [(Op::Ge, 48, 5, 0, 0), (Op::Ge, 71, 33_759_209_683, 0, 12), ANY, ANY, ANY, ANY]),
    (true, [
        (Op::Le, 54, 20_625_140_058_973, 0, 12), (Op::Ge, 71, 9_956_278_533, 0, 12),
        (Op::In, 35, 20, 23, 0), ANY, ANY, ANY,
    ]),
    (false, [
        (Op::Ge, 21, -1_486_921_254, 0, 12), (Op::Ge, 20, 69_654_406_809, 0, 12),
        (Op::In, 35, 20, 23, 0), ANY, ANY, ANY,
    ]),
    (true, [
        (Op::Le, 32, -88_103_787, 0, 10), (Op::Ge, 17, 316_609_386, 0, 11), (Op::Eq, 72, 2, 0, 0),
        ANY, ANY, ANY,
    ]),
    (true, [
        (Op::Le, 34, 336_010_955_575, 0, 12), (Op::Le, 68, 247_637_271_351, 0, 12),
        (Op::Eq, 56, 1, 0, 0), ANY, ANY, ANY,
    ]),
    (false, [
        (Op::Ge, 22, -23_840_774, 0, 10), (Op::In, 35, 0, 0, 0), (Op::Eq, 72, 2, 0, 0), ANY, ANY,
        ANY,
    ]),
    (false, [
        (Op::Ge, 42, 9_021_492_658_429, 0, 11), (Op::Le, 10, -479_441_712_554, 0, 12), ANY, ANY,
        ANY, ANY,
    ]),
    (true, [
        (Op::Le, 13, 886_273_409, 0, 12), (Op::Le, 16, 639_508_691_164, 0, 12),
        (Op::Eq, 57, 1, 0, 0), ANY, ANY, ANY,
    ]),
    (true, [
        (Op::Le, 13, 56_247_011_082, 0, 12), (Op::Ge, 51, 19_257_684_619, 0, 12),
        (Op::Eq, 59, 1, 0, 0), ANY, ANY, ANY,
    ]),
    (true, [
        (Op::Le, 26, 8_074_882_103, 0, 12), (Op::Ge, 70, 11_708_309_601, 0, 12), ANY, ANY, ANY,
        ANY,
    ]),
    (false, [
        (Op::Ge, 38, 1_865_948_161, 0, 12), (Op::Ge, 61, 9_536_043_284, 0, 8),
        (Op::Le, 62, 9_670_846_245, 0, 8), (Op::Eq, 35, 8, 0, 0), ANY, ANY,
    ]),
    (true, [
        (Op::Le, 49, -8_267_982_551, 0, 12), (Op::Le, 68, 536_537_521_914, 0, 12),
        (Op::Eq, 57, 1, 0, 0), ANY, ANY, ANY,
    ]),
    (true, [
        (Op::Le, 14, -1_342_144_035_663, 0, 12), (Op::Ge, 7, 6_843_139_792, 0, 12),
        (Op::Eq, 72, 4, 0, 0), ANY, ANY, ANY,
    ]),
    (false, [
        (Op::Ge, 38, 186_594_868, 0, 11), (Op::Ge, 61, 9_536_034_773, 0, 8),
        (Op::Ge, 55, 8_681_303_658, 0, 8), (Op::Eq, 56, 1, 0, 0), ANY, ANY,
    ]),
    (false, [
        (Op::Ge, 54, 8_721_365_662_096, 0, 11), (Op::Le, 45, -770_081_671_424, 0, 12), ANY, ANY,
        ANY, ANY,
    ]),
    (true, [
        (Op::Le, 30, 1, 0, 0), (Op::Le, 69, -1_457_487_435_051, 0, 12), (Op::In, 35, 20, 23, 0),
        ANY, ANY, ANY,
    ]),
    (true, [
        (Op::Le, 13, 886_273_409, 0, 12), (Op::Le, 45, -1_129_440_954_302, 0, 12), ANY, ANY, ANY,
        ANY,
    ]),
    (true, [
        (Op::Le, 61, 3_503_757_061_587, 0, 12), (Op::Le, 2, 3_674_435_615, 0, 12), ANY, ANY, ANY,
        ANY,
    ]),
    (false, [
        (Op::Ge, 31, 6, 0, 0), (Op::Ge, 39, 13_873_233_781, 0, 12), (Op::Eq, 56, 1, 0, 0), ANY,
        ANY, ANY,
    ]),
    (true, [
        (Op::Le, 15, -2_112_495_107, 0, 9), (Op::Le, 21, -9_779_320_525, 0, 11),
        (Op::Ge, 11, -1_755_808_578, 0, 7), (Op::Eq, 72, 1, 0, 0), ANY, ANY,
    ]),
    (false, [
        (Op::Ge, 31, 2, 0, 0), (Op::Ge, 54, 60, 0, 0), (Op::Ge, 44, 12, 0, 1),
        (Op::Ge, 6, 6, 0, 1), (Op::Eq, 72, 6, 0, 0), (Op::Eq, 35, 2, 0, 0),
    ]),
    (false, [
        (Op::Ge, 14, 2_218_106_766_884, 0, 12), (Op::Le, 70, -3_994_395_698, 0, 12),
        (Op::Eq, 35, 16, 0, 0), ANY, ANY, ANY,
    ]),
    (true, [
        (Op::Le, 53, 21_149_731_261_368, 0, 12), (Op::Le, 1, -376_852_964_393, 0, 12),
        (Op::In, 35, 20, 23, 0), ANY, ANY, ANY,
    ]),
    (false, [
        (Op::Ge, 61, 96_022_441_207_446, 0, 12), (Op::Le, 68, 34_972_482_193, 0, 11), ANY, ANY,
        ANY, ANY,
    ]),
    (false, [
        (Op::Ge, 38, 1_865_948_161, 0, 12), (Op::Ge, 61, 9_536_043_284, 0, 8),
        (Op::Le, 62, 9_670_846_245, 0, 8), (Op::Eq, 35, 17, 0, 0), ANY, ANY,
    ]),
    (true, [
        (Op::Le, 13, 8_177_319_388, 0, 12), (Op::Ge, 17, 14_620_999_612, 0, 12), ANY, ANY, ANY,
        ANY,
    ]),
    (true, [
        (Op::Le, 34, 365_308_166_414, 0, 12), (Op::Le, 16, 400_893_813_069, 0, 12),
        (Op::Eq, 72, 5, 0, 0), ANY, ANY, ANY,
    ]),
    (false, [
        (Op::Ge, 62, 89_373_499_384_241, 0, 12), (Op::Le, 51, -2_741_635_191, 0, 12),
        (Op::Eq, 72, 1, 0, 0), ANY, ANY, ANY,
    ]),
    (true, [
        (Op::Le, 61, 5_418_823_304_347, 0, 12), (Op::Le, 10, -422_866_719_649, 0, 12), ANY, ANY,
        ANY, ANY,
    ]),
    (false, [
        (Op::Ge, 30, 5, 0, 0), (Op::Le, 69, -1_159_346_030_872, 0, 12), (Op::Eq, 35, 22, 0, 0),
        ANY, ANY, ANY,
    ]),
    (false, [
        (Op::Ge, 19, 41_798_655_327, 0, 12), (Op::Ge, 0, 6_734_015_313_961, 0, 12),
        (Op::In, 35, 20, 23, 0), ANY, ANY, ANY,
    ]),
    (true, [
        (Op::Le, 15, -260_338_060_349, 0, 11), (Op::Le, 33, 238_168_112_276, 0, 12), ANY, ANY,
        ANY, ANY,
    ]),
    (true, [
        (Op::Le, 61, 1_357_158_226_389, 0, 11), (Op::Le, 2, 1_924_913_661, 0, 12), ANY, ANY, ANY,
        ANY,
    ]),
    (false, [
        (Op::Ge, 14, 1_714_252_214_364, 0, 12), (Op::Le, 45, -1_129_440_954_302, 0, 12),
        (Op::Eq, 72, 4, 0, 0), ANY, ANY, ANY,
    ]),
    (true, [
        (Op::Le, 17, -51_248_070_032, 0, 12), (Op::Ge, 22, -83_808_938_102, 0, 12), ANY, ANY, ANY,
        ANY,
    ]),
    (true, [
        (Op::Le, 54, 22_509_371_455_114, 0, 12), (Op::Ge, 39, 2_976_402_628, 0, 12),
        (Op::Eq, 59, 1, 0, 0), ANY, ANY, ANY,
    ]),
    (true, [
        (Op::Le, 14, -2_344_526_637_064, 0, 12), (Op::Ge, 20, 40_068_069_939, 0, 12), ANY, ANY,
        ANY, ANY,
    ]),
    (true, [
        (Op::Le, 3, 83_867_390_324, 0, 12), (Op::Le, 69, -1_100_475_105_203, 0, 12),
        (Op::In, 35, 20, 23, 0), ANY, ANY, ANY,
    ]),
    (true, [
        (Op::Ge, 65, 92_030_000_000_006, 0, 12), (Op::Ge, 60, 1_504_870_560_108, 0, 12), ANY, ANY,
        ANY, ANY,
    ]),
    (false, [
        (Op::Ge, 42, 88_952_653_717_272, 0, 12), (Op::Le, 2, 31_654_888, 0, 10), ANY, ANY, ANY,
        ANY,
    ]),
    (false, [
        (Op::Ge, 54, 84_181_207_583_347, 0, 12), (Op::Le, 18, 12_838_900_259, 0, 12), ANY, ANY,
        ANY, ANY,
    ]),
    (true, [
        (Op::Le, 45, -1_536_658_910_705, 0, 12), (Op::Le, 22, -22_318_725_425, 0, 12),
        (Op::Eq, 72, 2, 0, 0), ANY, ANY, ANY,
    ]),
    (true, [
        (Op::Le, 27, 6_837_778_067, 0, 12), (Op::Le, 54, 2_329_241_515, 0, 8),
        (Op::Ge, 3, 8_661_248_075, 0, 11), (Op::Eq, 35, 6, 0, 0), ANY, ANY,
    ]),
    (true, [
        (Op::Le, 62, 2_417_455_072_988, 0, 12),
        (Op::Between, 45, -614_786_474_045, 207_539_773_281, 12), (Op::Eq, 72, 3, 0, 0), ANY, ANY,
        ANY,
    ]),
    (true, [
        (Op::Le, 34, 336_010_955_575, 0, 12), (Op::Ge, 52, 19_270_109_235, 0, 12),
        (Op::Eq, 56, 1, 0, 0), ANY, ANY, ANY,
    ]),
    (false, [
        (Op::Ge, 61, 9_536_043_284, 0, 8), (Op::Ge, 38, 2_366_750_995, 0, 12),
        (Op::Ge, 15, 2_046_146_229, 0, 9), (Op::Eq, 35, 3, 0, 0), ANY, ANY,
    ]),
    (false, [
        (Op::Ge, 62, 89_373_499_384_241, 0, 12), (Op::Ge, 2, 27_526_795_523, 0, 12),
        (Op::In, 35, 20, 23, 0), ANY, ANY, ANY,
    ]),
    (true, [
        (Op::Le, 14, -1_977_917_225_442, 0, 12), (Op::Ge, 71, 39_861_770_193, 0, 12),
        (Op::Eq, 59, 1, 0, 0), ANY, ANY, ANY,
    ]),
    (false, [
        (Op::Ge, 21, -717_425_385, 0, 12), (Op::Le, 17, 2_014_123_904, 0, 12), ANY, ANY, ANY, ANY,
    ]),
    (false, [
        (Op::Ge, 62, 98_632_249_177_409, 0, 12), (Op::Ge, 64, 972_276_508, 0, 12),
        (Op::Eq, 59, 1, 0, 0), ANY, ANY, ANY,
    ]),
    (true, [
        (Op::Le, 21, -103_167_040_398, 0, 12), (Op::Ge, 58, 1, 0, 0), (Op::Eq, 35, 13, 0, 0), ANY,
        ANY, ANY,
    ]),
    (true, [
        (Op::Le, 25, 5_548_156_292, 0, 12), (Op::Le, 7, -3_657_074_613, 0, 11),
        (Op::Le, 40, 2_144_107_346, 0, 8), (Op::Eq, 35, 18, 0, 0), ANY, ANY,
    ]),
    (true, [
        (Op::Le, 3, -286_381_306_679, 0, 12), (Op::Ge, 53, 37_712_563_201_862, 0, 12), ANY, ANY,
        ANY, ANY,
    ]),
    (false, [
        (Op::Ge, 38, 8_650_326_859, 0, 12), (Op::Le, 2, 14_794_336_648, 0, 12), ANY, ANY, ANY,
        ANY,
    ]),
    (false, [
        (Op::Ge, 55, 82_454_573_967_079, 0, 12), (Op::In, 35, 19, 19, 0), (Op::Eq, 72, 0, 0, 0),
        ANY, ANY, ANY,
    ]),
    (false, [
        (Op::Ge, 55, 82_454_573_967_079, 0, 12), (Op::In, 35, 19, 19, 0), (Op::Eq, 72, 1, 0, 0),
        ANY, ANY, ANY,
    ]),
    (true, [
        (Op::Le, 27, 6_837_778_067, 0, 12), (Op::Le, 40, 1_605_947_179, 0, 8),
        (Op::Ge, 11, -1_127_701_187, 0, 7), (Op::Eq, 72, 6, 0, 0), ANY, ANY,
    ]),
    (false, [
        (Op::Ge, 54, 78_115_236_912_005, 0, 12), (Op::Le, 24, 11_447_152_483, 0, 12),
        (Op::Eq, 59, 1, 0, 0), ANY, ANY, ANY,
    ]),
    (false, [
        (Op::Ge, 30, 5, 0, 0), (Op::Le, 45, -1_422_984_964_535, 0, 12), (Op::Eq, 72, 2, 0, 0),
        ANY, ANY, ANY,
    ]),
    (true, [
        (Op::Le, 62, 13_599_250_472_473, 0, 12), (Op::Ge, 32, 2_306_019_819, 0, 12),
        (Op::In, 35, 7, 14, 0), ANY, ANY, ANY,
    ]),
    (false, [
        (Op::Ge, 13, 981_752_292_899, 0, 12), (Op::Ge, 70, 14_461_038_157, 0, 12),
        (Op::Eq, 72, 5, 0, 0), ANY, ANY, ANY,
    ]),
    (true, [
        (Op::Le, 34, 273_882_464_262, 0, 12), (Op::Ge, 26, 30_155_709_967, 0, 12),
        (Op::In, 35, 20, 23, 0), ANY, ANY, ANY,
    ]),
    (true, [
        (Op::Le, 27, 6_837_778_067, 0, 12), (Op::Le, 54, 1_703_206_178, 0, 8),
        (Op::Ge, 32, -1_017_634_652, 0, 11), (Op::Eq, 72, 2, 0, 0), ANY, ANY,
    ]),
    (false, [
        (Op::Ge, 54, 67_899_626_426_361, 0, 12), (Op::Le, 40, 33_487_434_256_627, 0, 12), ANY,
        ANY, ANY, ANY,
    ]),
    (false, [
        (Op::Ge, 42, 92_869_319_882_182, 0, 12), (Op::Le, 17, 4_404_610_817, 0, 12), ANY, ANY,
        ANY, ANY,
    ]),
    (true, [
        (Op::Le, 51, -5_348_262_374, 0, 12), (Op::Ge, 53, 69_060_618_393_279, 0, 12),
        (Op::Eq, 35, 20, 0, 0), ANY, ANY, ANY,
    ]),
    (true, [
        (Op::Le, 49, -14_325_177_909, 0, 12), (Op::Ge, 64, 16_082_751_957, 0, 12),
        (Op::Eq, 57, 1, 0, 0), ANY, ANY, ANY,
    ]),
    (true, [
        (Op::Le, 14, -2_344_526_637_064, 0, 12),
        (Op::Between, 50, -3_610_257_481, 4_009_867_371, 12), (Op::Eq, 59, 1, 0, 0), ANY, ANY,
        ANY,
    ]),
    (false, [
        (Op::Le, 46, 0, 0, 0), (Op::Le, 66, 34_905_632, 0, 12), (Op::Eq, 72, 0, 0, 0), ANY, ANY,
        ANY,
    ]),
    (true, [
        (Op::Le, 27, 6_837_778_067, 0, 12), (Op::Le, 40, 1_605_947_179, 0, 8),
        (Op::Ge, 11, -1_127_701_187, 0, 7), (Op::Eq, 35, 16, 0, 0), ANY, ANY,
    ]),
    (true, [
        (Op::Le, 41, 2_065_922_058, 0, 8), (Op::Le, 63, 8_138_635, 0, 6),
        (Op::Le, 23, -1_118_632_156, 0, 10), (Op::Eq, 58, 1, 0, 0), ANY, ANY,
    ]),
    (true, [
        (Op::Le, 49, -11_045_001_747, 0, 12), (Op::Le, 68, 311_970_906_529, 0, 12), ANY, ANY, ANY,
        ANY,
    ]),
    (false, [
        (Op::Ge, 61, 9_536_043_284, 0, 8), (Op::Ge, 9, 1_753_783_257, 0, 11),
        (Op::Le, 36, 1_638_794_532, 0, 12), (Op::Eq, 35, 8, 0, 0), ANY, ANY,
    ]),
    (true, [
        (Op::Le, 34, 365_308_166_414, 0, 12), (Op::Ge, 5, 27_907_557_487, 0, 12), ANY, ANY, ANY,
        ANY,
    ]),
    (false, [(Op::Le, 46, 0, 0, 0), (Op::Le, 52, -43_364_569_302, 0, 12), ANY, ANY, ANY, ANY]),
    (true, [
        (Op::Le, 61, 15_680_586_695_736, 0, 12), (Op::Ge, 42, 70_426_155_549_544, 0, 12), ANY,
        ANY, ANY, ANY,
    ]),
    (false, [
        (Op::Ge, 61, 9_536_043_284, 0, 8), (Op::Ge, 7, 2_432_417_868, 0, 11),
        (Op::Le, 36, 1_638_794_532, 0, 12), (Op::Eq, 35, 0, 0, 0), ANY, ANY,
    ]),
    (true, [
        (Op::Le, 34, 379_989_986_507, 0, 12), (Op::Le, 2, 1_924_913_661, 0, 12),
        (Op::Eq, 72, 5, 0, 0), ANY, ANY, ANY,
    ]),
    (true, [
        (Op::Le, 14, -2_344_526_637_064, 0, 12), (Op::Le, 44, 952_041_479_441, 0, 12), ANY, ANY,
        ANY, ANY,
    ]),
    (true, [
        (Op::Le, 24, 194_583_421, 0, 11), (Op::Le, 10, -286_078_754_321, 0, 12),
        (Op::Eq, 56, 1, 0, 0), ANY, ANY, ANY,
    ]),
    (true, [
        (Op::Le, 24, 2_650_174_002, 0, 12), (Op::Ge, 16, 1_593_071_747_057, 0, 12),
        (Op::In, 35, 20, 23, 0), ANY, ANY, ANY,
    ]),
    (true, [
        (Op::Le, 21, -103_167_040_398, 0, 12),
        (Op::Between, 71, -5_880_312_126, 6_771_478_285, 12), (Op::In, 35, 7, 14, 0), ANY, ANY,
        ANY,
    ]),
    (true, [
        (Op::Le, 3, -5_731_108_736, 0, 12), (Op::Ge, 27, 2_923_394_723, 0, 11),
        (Op::Ge, 25, 4_226_528_076, 0, 11), (Op::Eq, 35, 10, 0, 0), (Op::Eq, 72, 3, 0, 0), ANY,
    ]),
    (false, [
        (Op::Ge, 15, 2_041_451_492_706, 0, 12), (Op::Le, 39, -1_221_253_105, 0, 12),
        (Op::In, 35, 20, 23, 0), ANY, ANY, ANY,
    ]),
    (true, [
        (Op::Le, 53, 18_578_805_575_288, 0, 12), (Op::Ge, 0, 13_915_733_334_115, 0, 12), ANY, ANY,
        ANY, ANY,
    ]),
    (true, [(Op::Le, 52, -65_293_293_674, 0, 12), (Op::In, 35, 20, 20, 0), ANY, ANY, ANY, ANY]),
    (false, [
        (Op::Ge, 21, -152_070_846, 0, 11), (Op::Le, 40, 33_487_434_256_627, 0, 12),
        (Op::Eq, 72, 5, 0, 0), ANY, ANY, ANY,
    ]),
    (true, [(Op::Le, 26, 1_171_005_877, 0, 12), (Op::In, 35, 16, 16, 0), ANY, ANY, ANY, ANY]),
    (true, [
        (Op::Le, 62, 10_434_588_873_737, 0, 12), (Op::Ge, 70, 4_008_177_104, 0, 12),
        (Op::Eq, 35, 16, 0, 0), ANY, ANY, ANY,
    ]),
    (true, [
        (Op::Le, 61, 5_418_823_304_347, 0, 12), (Op::Le, 16, 517_302_629_848, 0, 12), ANY, ANY,
        ANY, ANY,
    ]),
    (true, [(Op::Ge, 48, 6, 0, 0), (Op::Le, 10, -134_109_392_588, 0, 12), ANY, ANY, ANY, ANY]),
    (true, [(Op::Le, 53, 18_578_805_575_288, 0, 12), (Op::In, 35, 9, 9, 0), ANY, ANY, ANY, ANY]),
    (false, [
        (Op::Ge, 30, 5, 0, 0), (Op::Le, 69, -1_159_346_030_872, 0, 12), (Op::Eq, 35, 23, 0, 0),
        ANY, ANY, ANY,
    ]),
    (true, [
        (Op::Le, 8, -6_812_659_013, 0, 12), (Op::Ge, 26, 117_516_911_206, 0, 12),
        (Op::Eq, 35, 13, 0, 0), ANY, ANY, ANY,
    ]),
    (true, [
        (Op::Le, 54, 22_509_371_455_114, 0, 12), (Op::Le, 10, -422_866_719_649, 0, 12), ANY, ANY,
        ANY, ANY,
    ]),
    (true, [
        (Op::Le, 53, 21_149_731_261_368, 0, 12), (Op::Le, 44, 494_425_129_905, 0, 12), ANY, ANY,
        ANY, ANY,
    ]),
    (true, [(Op::Le, 14, -2_289_885_513_984, 0, 12), (Op::Ge, 29, 6, 0, 0), ANY, ANY, ANY, ANY]),
    (false, [
        (Op::Ge, 21, -1_155_514_485, 0, 12), (Op::Le, 24, 4_099_778_821, 0, 12),
        (Op::Eq, 57, 1, 0, 0), ANY, ANY, ANY,
    ]),
    (false, [
        (Op::Ge, 54, 8_721_365_662_096, 0, 11),
        (Op::Between, 70, -3_184_483_329, 3_367_010_176, 12), ANY, ANY, ANY, ANY,
    ]),
    (true, [
        (Op::Le, 3, -25_147_324_264, 0, 12), (Op::Ge, 11, -9_037_920_447_042, 0, 11),
        (Op::Eq, 59, 1, 0, 0), ANY, ANY, ANY,
    ]),
    (true, [
        (Op::Le, 15, -2_921_859_236_625, 0, 12), (Op::Ge, 66, 7_814_538_794, 0, 12),
        (Op::Eq, 58, 1, 0, 0), ANY, ANY, ANY,
    ]),
    (true, [
        (Op::Le, 14, -2_344_526_637_064, 0, 12), (Op::Le, 2, 2_837_437_065, 0, 12), ANY, ANY, ANY,
        ANY,
    ]),
    (true, [
        (Op::Le, 3, -91_259_020_395, 0, 12), (Op::Ge, 40, 60_696_816_665_125, 0, 12), ANY, ANY,
        ANY, ANY,
    ]),
    (true, [
        (Op::Le, 27, 2_929_379_759, 0, 12), (Op::Ge, 64, 5_230_358_453, 0, 12),
        (Op::Ge, 44, 1_386_145_597, 0, 9), (Op::Eq, 59, 1, 0, 0), ANY, ANY,
    ]),
    (false, [
        (Op::Ge, 54, 78_115_236_912_005, 0, 12), (Op::Le, 2, 2_837_437_065, 0, 12), ANY, ANY, ANY,
        ANY,
    ]),
    (true, [
        (Op::Le, 13, 100_215_016_184, 0, 12), (Op::Ge, 52, 53_650_017_546, 0, 12), ANY, ANY, ANY,
        ANY,
    ]),
    (true, [
        (Op::Le, 55, 29_828_518_892_658, 0, 12), (Op::Le, 16, 487_954_125_812, 0, 12), ANY, ANY,
        ANY, ANY,
    ]),
    (true, [
        (Op::Le, 34, 405_699_915_549, 0, 12), (Op::Ge, 5, 27_039_498_754, 0, 12),
        (Op::Eq, 72, 1, 0, 0), ANY, ANY, ANY,
    ]),
    (true, [(Op::Le, 15, -260_338_060_349, 0, 11), (Op::Ge, 28, 10, 0, 0), ANY, ANY, ANY, ANY]),
    (true, [
        (Op::Le, 61, 5_418_823_304_347, 0, 12), (Op::Le, 67, 2_890_012_136, 0, 12), ANY, ANY, ANY,
        ANY,
    ]),
    (true, [
        (Op::Le, 62, 7_980_198_437, 0, 9), (Op::Le, 39, -1_229_544_773, 0, 11),
        (Op::Le, 40, 1_818_947_095, 0, 8), (Op::In, 35, 20, 23, 0), ANY, ANY,
    ]),
    (false, [
        (Op::Ge, 62, 97_799_245_309_998, 0, 12), (Op::Ge, 19, 50_318_074_037, 0, 12),
        (Op::In, 35, 20, 23, 0), ANY, ANY, ANY,
    ]),
    (true, [
        (Op::Le, 15, -2_596_399_053_377, 0, 12), (Op::Ge, 2, 15_683_885_774, 0, 12),
        (Op::Eq, 35, 20, 0, 0), ANY, ANY, ANY,
    ]),
    (false, [
        (Op::Ge, 62, 97_799_245_309_998, 0, 12), (Op::Ge, 20, 79_980_230_055, 0, 12),
        (Op::In, 35, 20, 23, 0), ANY, ANY, ANY,
    ]),
    (true, [
        (Op::Le, 62, 3_695_232_436_063, 0, 12), (Op::Le, 70, -28_555_905_248, 0, 12), ANY, ANY,
        ANY, ANY,
    ]),
    (true, [
        (Op::Le, 24, 194_583_421, 0, 11), (Op::Ge, 71, 25_184_469_595, 0, 12),
        (Op::Eq, 59, 1, 0, 0), ANY, ANY, ANY,
    ]),
    (false, [
        (Op::Ge, 42, 88_952_653_717_272, 0, 12), (Op::Le, 10, -60_399_701_237, 0, 11), ANY, ANY,
        ANY, ANY,
    ]),
    (true, [
        (Op::Le, 25, 5_548_156_292, 0, 12), (Op::Le, 54, 1_703_206_178, 0, 8),
        (Op::Le, 33, 6_571_549_533, 0, 10), (Op::Eq, 72, 2, 0, 0), ANY, ANY,
    ]),
    (true, [
        (Op::Le, 14, -2_344_526_637_064, 0, 12), (Op::Ge, 18, 3_178_082_774, 0, 12), ANY, ANY,
        ANY, ANY,
    ]),
    (false, [
        (Op::Ge, 61, 9_473_247_534_402, 0, 11), (Op::Le, 68, 34_972_482_193, 0, 11),
        (Op::Eq, 56, 1, 0, 0), ANY, ANY, ANY,
    ]),
    (true, [
        (Op::Le, 62, 7_980_198_437, 0, 9), (Op::Le, 42, 1_838_030_246, 0, 8),
        (Op::Le, 55, 1_250_217_521, 0, 8), (Op::In, 35, 20, 23, 0), ANY, ANY,
    ]),
    (true, [
        (Op::Le, 14, -2_187_038_250_278, 0, 12), (Op::Le, 5, 2_236_733_024, 0, 12), ANY, ANY, ANY,
        ANY,
    ]),
    (true, [
        (Op::Le, 40, 2_144_107_346, 0, 8), (Op::Le, 13, 1_223_925_466, 0, 10),
        (Op::Ge, 37, 6_465_758_156, 0, 11), (Op::Eq, 35, 18, 0, 0), ANY, ANY,
    ]),
    (true, [
        (Op::Le, 62, 2_417_455_072_988, 0, 12),
        (Op::Between, 45, -614_786_474_045, 207_539_773_281, 12), (Op::Eq, 57, 1, 0, 0), ANY, ANY,
        ANY,
    ]),
    (true, [
        (Op::Le, 61, 5_418_823_304_347, 0, 12), (Op::Le, 50, -90_923_229_416, 0, 12),
        (Op::Eq, 59, 1, 0, 0), ANY, ANY, ANY,
    ]),
    (true, [
        (Op::Le, 55, 27_937_723_759_111, 0, 12), (Op::Le, 16, 517_302_629_848, 0, 12), ANY, ANY,
        ANY, ANY,
    ]),
    (true, [
        (Op::Le, 14, -2_187_038_250_278, 0, 12), (Op::Ge, 17, -4_060_754_253, 0, 12),
        (Op::Eq, 59, 1, 0, 0), ANY, ANY, ANY,
    ]),
    (true, [
        (Op::Le, 61, 5_418_823_304_347, 0, 12), (Op::Le, 50, -90_923_229_416, 0, 12),
        (Op::In, 35, 7, 14, 0), ANY, ANY, ANY,
    ]),
    (true, [
        (Op::Le, 34, 405_699_915_549, 0, 12), (Op::Ge, 5, 27_039_498_754, 0, 12),
        (Op::In, 35, 20, 23, 0), ANY, ANY, ANY,
    ]),
    (true, [(Op::Le, 26, 254_012_653, 0, 11), (Op::In, 35, 20, 20, 0), ANY, ANY, ANY, ANY]),
    (true, [
        (Op::Le, 27, 5_558_113_318, 0, 12), (Op::Le, 38, -2_259_446_914, 0, 12),
        (Op::Ge, 3, 4_033_662_233, 0, 11), (Op::Eq, 72, 1, 0, 0), ANY, ANY,
    ]),
    (true, [
        (Op::Le, 15, -3_241_184_302_191, 0, 12), (Op::Ge, 4, -8_393_357_935, 0, 12),
        (Op::Eq, 59, 1, 0, 0), ANY, ANY, ANY,
    ]),
    (false, [
        (Op::Ge, 31, 6, 0, 0), (Op::Ge, 2, 7_385_036_543, 0, 12), (Op::Eq, 35, 6, 0, 0), ANY, ANY,
        ANY,
    ]),
    (false, [(Op::Ge, 9, 61_916_514_734, 0, 12), (Op::In, 35, 15, 15, 0), ANY, ANY, ANY, ANY]),
    (true, [
        (Op::Le, 62, 2_898_892_702, 0, 9), (Op::Le, 21, -2_994_954_907, 0, 11),
        (Op::Le, 42, 1_451_065_799, 0, 8), (Op::In, 35, 7, 14, 0), ANY, ANY,
    ]),
    (false, [
        (Op::Ge, 20, 98_883_002_663, 0, 12), (Op::Ge, 1, 834_297_868_579, 0, 12),
        (Op::Eq, 56, 1, 0, 0), ANY, ANY, ANY,
    ]),
    (false, [(Op::Ge, 40, 90_605_260_301_048, 0, 12), (Op::In, 35, 1, 1, 0), ANY, ANY, ANY, ANY]),
    (true, [
        (Op::Le, 11, -163_848_507_305_154, 0, 12), (Op::Ge, 66, 7_704_921_362, 0, 12),
        (Op::Eq, 35, 20, 0, 0), ANY, ANY, ANY,
    ]),
    (false, [
        (Op::Ge, 61, 92_430_123_495_695, 0, 12), (Op::Le, 68, 283_114_920_997, 0, 12), ANY, ANY,
        ANY, ANY,
    ]),
    (true, [
        (Op::Le, 62, 7_980_198_437, 0, 9), (Op::Le, 42, 1_838_030_246, 0, 8),
        (Op::Le, 55, 1_250_217_521, 0, 8), (Op::Eq, 72, 3, 0, 0), ANY, ANY,
    ]),
    (true, [
        (Op::Le, 34, 407_243_075_194, 0, 12), (Op::Ge, 44, 3_519_022_231_122, 0, 12), ANY, ANY,
        ANY, ANY,
    ]),
    (false, [
        (Op::Ge, 62, 89_373_499_384_241, 0, 12), (Op::Ge, 2, 27_526_795_523, 0, 12),
        (Op::Eq, 72, 3, 0, 0), ANY, ANY, ANY,
    ]),
    (true, [
        (Op::Le, 40, 2_144_107_346, 0, 8), (Op::Le, 13, 1_223_925_466, 0, 10),
        (Op::Ge, 37, 6_465_758_156, 0, 11), (Op::Eq, 35, 16, 0, 0), ANY, ANY,
    ]),
    (true, [
        (Op::Le, 25, 5_548_156_292, 0, 12), (Op::Le, 54, 1_703_206_178, 0, 8),
        (Op::Le, 33, 6_571_549_533, 0, 10), (Op::In, 35, 20, 23, 0), ANY, ANY,
    ]),
    (true, [
        (Op::Le, 27, 6_837_778_067, 0, 12), (Op::Le, 40, 1_605_947_179, 0, 8),
        (Op::Ge, 11, -1_127_701_187, 0, 7), (Op::In, 35, 20, 23, 0), ANY, ANY,
    ]),
    (true, [
        (Op::Le, 62, 2_417_455_072_988, 0, 12),
        (Op::Between, 5, 2_236_733_024, 3_968_588_912, 12), ANY, ANY, ANY, ANY,
    ]),
    (true, [
        (Op::Ge, 37, 99_803_555_555_201, 0, 12),
        (Op::Between, 68, 697_599_259_542, 930_270_598_004, 12), (Op::In, 35, 7, 14, 0), ANY, ANY,
        ANY,
    ]),
    (true, [
        (Op::Le, 3, -25_147_324_264, 0, 12), (Op::Ge, 11, -9_037_920_447_042, 0, 11), ANY, ANY,
        ANY, ANY,
    ]),
    (false, [
        (Op::Ge, 62, 89_373_499_384_241, 0, 12), (Op::Ge, 2, 23_002_995_475, 0, 12),
        (Op::Eq, 72, 6, 0, 0), ANY, ANY, ANY,
    ]),
    (true, [
        (Op::Le, 14, -2_742_641_598_641, 0, 12), (Op::In, 35, 20, 20, 0), ANY, ANY, ANY, ANY,
    ]),
    (true, [
        (Op::Le, 14, -2_148_849_848_163, 0, 12), (Op::Ge, 71, 22_316_510_302, 0, 12),
        (Op::In, 35, 20, 23, 0), ANY, ANY, ANY,
    ]),
    (true, [
        (Op::Le, 61, 3_503_757_061_587, 0, 12), (Op::Le, 38, -8_589_755_612, 0, 12), ANY, ANY,
        ANY, ANY,
    ]),
    (true, [
        (Op::Le, 62, 2_417_455_072_988, 0, 12), (Op::Ge, 15, -1_412_432_258_616, 0, 12), ANY, ANY,
        ANY, ANY,
    ]),
    (true, [
        (Op::Le, 14, -2_240_426_681_222, 0, 12), (Op::Ge, 66, 10_175_590_584, 0, 12),
        (Op::Eq, 35, 20, 0, 0), ANY, ANY, ANY,
    ]),
    (false, [
        (Op::Ge, 62, 89_373_499_384_241, 0, 12), (Op::Ge, 2, 27_526_795_523, 0, 12),
        (Op::Eq, 59, 1, 0, 0), ANY, ANY, ANY,
    ]),
    (true, [
        (Op::Le, 14, -2_289_885_513_984, 0, 12), (Op::Le, 16, 442_037_442_949, 0, 12), ANY, ANY,
        ANY, ANY,
    ]),
];

/// Rules on hourly ETH candles.
#[derive(Debug)]
pub struct EthH1Rules210 {
    pub ensemble: Ensemble,
}

impl EthH1Rules210 {
    pub fn new(min_votes: u32) -> (r: EthH1Rules210)
        ensures
            r.well_formed(),
            r.ensemble.is_fresh(min_votes),
    {
        EthH1Rules210 { ensemble: Ensemble::new(min_votes) }
    }
}

impl Strategy for EthH1Rules210 {
    open spec fn well_formed(&self) -> bool {
        self.ensemble.well_formed()
    }

    open spec fn title(&self) -> Seq<char> {
        STRATEGY_NAME@
    }

    open spec fn answers(
        &self,
        first: Seq<Candle>,
        candle: Candle,
        signal: Option<Signal>,
    ) -> bool {
        strategy::signals(
            signal,
            self.ensemble.call_after(first, candle, FEATURES@, RULES@),
            candle.close_time_ms,
            STRATEGY_NAME@,
        )
    }

    open spec fn reads_snapshots(&self) -> bool {
        false
    }

    open spec fn answers_snapshot(
        &self,
        snapshot: MicrostructureSnapshot,
        signal: Option<Signal>,
    ) -> bool {
        signal is None
    }

    open spec fn has_considered(&self, snapshot: MicrostructureSnapshot) -> bool {
        true
    }

    open spec fn summary_is(&self, summary: Option<MicrostructureDecisionSummary>) -> bool {
        summary is None
    }

    open spec fn shown_rsi(&self) -> Option<Binary64> {
        self.ensemble.meters.rsi7.get()
    }

    open spec fn shown_series(&self) -> Option<bool> {
        candle::same_color_streak_of(self.ensemble.window@, 3)
    }

    open spec fn shown_atr(&self) -> Option<Binary64> {
        self.ensemble.meters.atr14.atr
    }

    open spec fn shown_extras(&self) -> Seq<char> {
        ensemble::votes_text(self.ensemble.last_votes, self.ensemble.min_votes)
    }

    fn name(&self) -> (r: &str) {
        STRATEGY_NAME
    }

    fn on_closed_candle(&mut self, candle: &Candle) -> (r: Option<Signal>)
        ensures
            final(self).ensemble.has_seen(old(self).ensemble, *candle),
            ensemble::decided(final(self).ensemble, *candle, FEATURES@, RULES@),
            strategy::signals(
                r,
                ensemble::call_of(final(self).ensemble.last_votes, old(self).ensemble.min_votes),
                candle.close_time_ms,
                STRATEGY_NAME@,
            ),
    {
        let call: Option<Call> = self.ensemble.decide(candle, &FEATURES, &RULES);
        proof {
            assert forall|first: Seq<Candle>, c: Candle, s: Option<Signal>| #[trigger]
                self.answers(first, c, s) == old(self).answers(seq![*candle] + first, c, s) by {
                ensemble::lemma_later(
                    old(self).ensemble,
                    self.ensemble,
                    *candle,
                    first,
                    c,
                    FEATURES@,
                    RULES@,
                );
            }
        }
        strategy::signal_for(call, candle.close_time_ms, STRATEGY_NAME)
    }

    fn warmup(&mut self, candle: &Candle)
        ensures
            final(self).ensemble.has_seen(old(self).ensemble, *candle),
            final(self).ensemble.last_votes == old(self).ensemble.last_votes,
    {
        self.ensemble.feed(candle);
        proof {
            assert forall|first: Seq<Candle>, c: Candle, s: Option<Signal>| #[trigger]
                self.answers(first, c, s) == old(self).answers(seq![*candle] + first, c, s) by {
                ensemble::lemma_later(
                    old(self).ensemble,
                    self.ensemble,
                    *candle,
                    first,
                    c,
                    FEATURES@,
                    RULES@,
                );
            }
        }
    }

    fn requires_microstructure(&self) -> (r: bool) {
        false
    }

    fn on_microstructure_snapshot(&mut self, snapshot: &MicrostructureSnapshot) -> (r: Option<
        Signal,
    >) {
        None
    }

    fn last_microstructure_decision_summary(&self) -> (r: Option<
        MicrostructureDecisionSummary,
    >) {
        None
    }

    fn current_rsi(&self) -> (r: Option<Binary64>) {
        self.ensemble.meters.rsi7.get()
    }

    fn current_series(&self) -> (r: Option<bool>) {
        candle::same_color_streak(&self.ensemble.window, 3)
    }

    fn current_atr(&self) -> (r: Option<Binary64>) {
        self.ensemble.meters.atr14.raw()
    }

    fn candle_log_extras(&self) -> (r: String) {
        ensemble::describe_votes(self.ensemble.last_votes, self.ensemble.min_votes)
    }
}

} // verus!
