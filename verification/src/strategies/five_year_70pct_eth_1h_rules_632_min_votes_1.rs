//! Rules on hourly ETH candles, drawn from five years of them.

use vstd::prelude::*;
use crate::binary64::Binary64;
use crate::candle;
use crate::candle::Candle;
use crate::ensemble;
use crate::ensemble::{Cond, Ensemble, Op};
use crate::features::Feature;
use crate::microstructure::MicrostructureSnapshot;
use crate::strategy;
use crate::strategy::{Call, MicrostructureDecisionSummary, Signal, Strategy};

verus! {

/// The name of the strategy.
pub const STRATEGY_NAME: &'static str = "five_year_70pct_eth_1h_rules_632_min_votes_1";

/// The features that the conditions number.
pub const FEATURES: [Feature; 72] = [
    Feature::AbsorptionDown, Feature::AbsorptionUp, Feature::Atr14Pct, Feature::BbPctb,
    Feature::Body, Feature::BodyAbsPct, Feature::BodyRatio, Feature::BodySum3, Feature::BodySum6,
    Feature::BodySum12, Feature::BreakoutEnergy, Feature::Cci12, Feature::Cci24,
    Feature::ClosePosition, Feature::CloseZ12, Feature::CloseZ24, Feature::Compression12To72,
    Feature::DistSma12, Feature::DistSma24, Feature::DistVwap24, Feature::DistVwap72,
    Feature::DonchHigh12, Feature::DonchHigh24, Feature::DonchLow12, Feature::DonchLow24,
    Feature::FailedHigh12, Feature::FailedHigh24, Feature::FailedLow12, Feature::FailedLow24,
    Feature::FlipCount6, Feature::FlipCount12, Feature::GreenCount3, Feature::GreenCount6,
    Feature::GreenStreak, Feature::HaBody, Feature::HaBodyRatio, Feature::HaClosePosition,
    Feature::Hour, Feature::LowerWick, Feature::LowerWickBody, Feature::MacdHistPct,
    Feature::MacdPct, Feature::Mfi8, Feature::Mfi14, Feature::MinuteOfDay, Feature::RangeAtr14,
    Feature::RangePctZ24, Feature::ReclaimMid12, Feature::RedCount3, Feature::RedStreak,
    Feature::Ret1, Feature::Ret3, Feature::Ret6, Feature::Ret12, Feature::Rsi7, Feature::Rsi8,
    Feature::Rsi14, Feature::SignedVolumeRatio20, Feature::StochK12, Feature::StochK24,
    Feature::UpperWick, Feature::UpperWickBody, Feature::VolumeBodyEfficiency,
    Feature::VolumeRangeEfficiency, Feature::VolumeRatio20, Feature::VolumeZ24,
    Feature::VwapSlope24, Feature::VwapSlope72, Feature::Weekday, Feature::RedCount6,
    Feature::SameColorRatio12, Feature::SessionOverlapLondonUs,
];

/// The rules: a color, green where true, and the conditions on which it is voted for.
pub const RULES: [(bool, [Cond; 2]); 632] = [
    (false, [(Op::Ge, 42, 90_971_006_267_369, 0, 12), (Op::Ge, 63, 28_499_754_838, 0, 12)]),
    (true, [(Op::Le, 55, 27_937_723_759_111, 0, 12), (Op::Ge, 63, 46_027_537_425, 0, 12)]),
    (false, [
        (Op::Ge, 19, 494_856_271, 0, 10), (Op::Between, 8, -2_440_276_996, 2_598_746_782, 12),
    ]),
    (false, [(Op::Ge, 22, -1_841_392_139, 0, 12), (Op::Ge, 23, 95_760_974_066, 0, 12)]),
    (true, [(Op::Le, 14, -1_977_917_225_442, 0, 12), (Op::Ge, 67, 39_861_770_193, 0, 12)]),
    (false, [(Op::Ge, 43, 90_605_260_301_048, 0, 12), (Op::Le, 6, 45_506_715_202, 0, 12)]),
    (false, [(Op::Ge, 22, -4_419_256_154, 0, 12), (Op::Le, 0, -41_794_890_628_583, 0, 12)]),
    (true, [(Op::Le, 14, -2_344_526_637_064, 0, 12), (Op::Ge, 43, 66_675_796_827_867, 0, 12)]),
    (false, [(Op::Ge, 42, 88_952_653_717_272, 0, 12), (Op::Ge, 2, 25_050_223_404, 0, 12)]),
    (false, [(Op::Le, 48, 0, 0, 0), (Op::Le, 52, -43_364_569_302, 0, 12)]),
    (false, [(Op::Ge, 59, 83_706_222_662_312, 0, 12), (Op::Le, 23, 4_099_778_821, 0, 12)]),
    (false, [(Op::Ge, 19, 494_856_271, 0, 10), (Op::Le, 61, 18_666_518_665, 0, 12)]),
    (false, [(Op::Ge, 59, 98_632_249_177_409, 0, 12), (Op::Ge, 0, 941_851_345_832, 0, 12)]),
    (false, [(Op::Ge, 54, 8_721_365_662_096, 0, 11), (Op::Le, 2, 5_354_469_061, 0, 12)]),
    (true, [(Op::Le, 24, 1_716_222_973, 0, 12), (Op::Ge, 0, 1_293_775_146_209, 0, 12)]),
    (true, [(Op::Le, 21, -103_167_040_398, 0, 12), (Op::Ge, 65, 3_746_261_866_779, 0, 12)]),
    (true, [(Op::Le, 14, -2_561_260_986_784, 0, 12), (Op::Ge, 61, 392_199_523_066, 0, 12)]),
    (false, [(Op::Ge, 23, 95_760_974_066, 0, 12), (Op::Le, 61, 18_666_518_665, 0, 12)]),
    (true, [(Op::Le, 3, -25_147_324_264, 0, 12), (Op::Ge, 11, -72_536_398_228_737, 0, 12)]),
    (false, [(Op::Ge, 55, 82_454_573_967_079, 0, 12), (Op::Le, 23, 17_971_631_655, 0, 12)]),
    (true, [(Op::Le, 4, -5_185_093_586, 0, 12), (Op::Le, 2, 31_654_888, 0, 10)]),
    (false, [(Op::Ge, 42, 88_952_653_717_272, 0, 12), (Op::Le, 10, -60_399_701_237, 0, 11)]),
    (false, [(Op::Ge, 20, 98_883_002_663, 0, 12), (Op::Ge, 13, 968_894_736_842, 0, 12)]),
    (true, [(Op::Le, 59, 2_417_455_072_988, 0, 12), (Op::Le, 16, 693_883_935_668, 0, 12)]),
    (false, [(Op::Ge, 19, 58_487_164_589, 0, 12), (Op::Eq, 37, 15, 0, 0)]),
    (true, [(Op::Le, 58, 2_062_588_143_616, 0, 12), (Op::Le, 43, 9_622_580_642_198, 0, 12)]),
    (true, [(Op::Le, 58, 2_062_588_143_616, 0, 12), (Op::Le, 66, -28_555_905_248, 0, 12)]),
    (true, [(Op::Le, 57, -4_211_939_583_565, 0, 12), (Op::Le, 5, 764_123_624, 0, 12)]),
    (true, [(Op::Le, 13, 100_215_016_184, 0, 12), (Op::Ge, 52, 65_040_574_296, 0, 12)]),
    (true, [(Op::Le, 55, 12_039_352_357_177, 0, 12), (Op::Ge, 12, -111_395_699_072_825, 0, 12)]),
    (true, [(Op::Le, 54, 26_442_162_092_557, 0, 12), (Op::Ge, 43, 60_696_816_665_125, 0, 12)]),
    (true, [(Op::Le, 14, -2_344_526_637_064, 0, 12), (Op::Ge, 18, 3_178_082_774, 0, 12)]),
    (false, [(Op::Ge, 55, 88_185_612_973_637, 0, 12), (Op::Le, 64, 604_709_102_916, 0, 12)]),
    (true, [(Op::Le, 17, -42_487_639_427, 0, 12), (Op::Ge, 41, 2_976_402_628, 0, 12)]),
    (true, [(Op::Le, 24, 1_171_005_877, 0, 12), (Op::Ge, 14, -1_343_857_006_248, 0, 12)]),
    (true, [(Op::Le, 42, 0, 0, 0), (Op::Ge, 67, 18_190_418_356, 0, 12)]),
    (true, [(Op::Le, 55, 27_937_723_759_111, 0, 12), (Op::Ge, 66, 14_461_038_157, 0, 12)]),
    (false, [(Op::Ge, 54, 67_899_626_426_361, 0, 12), (Op::Le, 43, 33_487_434_256_627, 0, 12)]),
    (false, [(Op::Ge, 23, 113_311_886_667, 0, 12), (Op::Between, 37, 8, 11, 0)]),
    (true, [(Op::Le, 58, 3_503_757_061_587, 0, 12), (Op::Eq, 37, 20, 0, 0)]),
    (false, [(Op::Ge, 3, 102_132_756_984, 0, 11), (Op::Le, 60, 2_944_078, 0, 12)]),
    (false, [(Op::Ge, 56, 81_688_139_538_765, 0, 12), (Op::Ge, 0, 2_347_119_575_634, 0, 12)]),
    (true, [(Op::Le, 54, 28_488_182_057_264, 0, 12), (Op::Ge, 43, 60_696_816_665_125, 0, 12)]),
    (false, [(Op::Le, 48, 0, 0, 0), (Op::Le, 17, -22_574_729_712, 0, 12)]),
    (false, [(Op::Ge, 20, 98_883_002_663, 0, 12), (Op::Ge, 0, 2_347_119_575_634, 0, 12)]),
    (true, [(Op::Le, 58, 3_503_757_061_587, 0, 12), (Op::Le, 40, -8_589_755_612, 0, 12)]),
    (true, [(Op::Ge, 39, 99_803_555_555_201, 0, 12), (Op::Ge, 23, 5_741_400_062, 0, 11)]),
    (false, [(Op::Ge, 43, 90_605_260_301_048, 0, 12), (Op::Ge, 61, 10_072_336_134_454, 0, 12)]),
    (true, [(Op::Le, 13, 100_215_016_184, 0, 12), (Op::Ge, 52, 53_650_017_546, 0, 12)]),
    (false, [(Op::Ge, 20, 98_883_002_663, 0, 12), (Op::Eq, 37, 0, 0, 0)]),
    (true, [(Op::Le, 58, 3_503_757_061_587, 0, 12), (Op::Le, 2, 3_674_435_615, 0, 12)]),
    (true, [(Op::Le, 58, 5_418_823_304_347, 0, 12), (Op::Le, 16, 517_302_629_848, 0, 12)]),
    (true, [(Op::Le, 3, -286_381_306_679, 0, 12), (Op::Ge, 4, -8_393_357_935, 0, 12)]),
    (false, [(Op::Ge, 20, 87_923_069_654, 0, 12), (Op::Ge, 62, 2_427_041_781, 0, 11)]),
    (true, [(Op::Le, 55, 12_039_352_357_177, 0, 12), (Op::Ge, 12, -123_693_327_474_426, 0, 12)]),
    (true, [(Op::Le, 43, 12_370_381_786_246, 0, 12), (Op::Le, 10, -134_109_392_588, 0, 12)]),
    (true, [(Op::Le, 58, 5_418_823_304_347, 0, 12), (Op::Le, 53, -90_923_229_416, 0, 12)]),
    (false, [(Op::Ge, 56, 81_688_139_538_765, 0, 12), (Op::Ge, 0, 1_293_775_146_209, 0, 12)]),
    (false, [(Op::Ge, 19, 494_856_271, 0, 10), (Op::Le, 10, -21_429_048_384, 0, 11)]),
    (false, [(Op::Ge, 20, 98_883_002_663, 0, 12), (Op::Ge, 38, 10_204_835_097, 0, 12)]),
    (false, [(Op::Ge, 21, -717_425_385, 0, 12), (Op::Ge, 23, 78_922_113_522, 0, 12)]),
    (false, [(Op::Ge, 59, 98_632_249_177_409, 0, 12), (Op::Ge, 38, 6_878_572_146, 0, 12)]),
    (false, [(Op::Ge, 59, 96_060_395_753_965, 0, 12), (Op::Le, 45, 470_794_215_282, 0, 12)]),
    (false, [(Op::Ge, 55, 85_600_813_068_941, 0, 12), (Op::Ge, 38, 8_326_115_895, 0, 12)]),
    (false, [(Op::Ge, 59, 94_755_383_566_354, 0, 12), (Op::Le, 0, -7_332_863_959_192, 0, 12)]),
    (true, [(Op::Le, 19, -59_419_189_352, 0, 12), (Op::Ge, 36, 555_858_847_899, 0, 12)]),
    (true, [(Op::Le, 14, -2_344_526_637_064, 0, 12), (Op::Le, 2, 2_837_437_065, 0, 12)]),
    (false, [(Op::Ge, 55, 88_185_612_973_637, 0, 12), (Op::Le, 45, 590_930_557_954, 0, 12)]),
    (true, [(Op::Le, 36, 365_308_166_414, 0, 12), (Op::Ge, 5, 27_907_557_487, 0, 12)]),
    (true, [(Op::Le, 15, -3_241_184_302_191, 0, 12), (Op::Ge, 4, -8_393_357_935, 0, 12)]),
    (true, [(Op::Le, 17, -51_248_070_032, 0, 12), (Op::Ge, 22, -83_808_938_102, 0, 12)]),
    (false, [(Op::Ge, 22, -643_444_193, 0, 12), (Op::Ge, 0, 941_851_345_832, 0, 12)]),
    (true, [(Op::Le, 13, 25_827_454_359, 0, 12), (Op::Ge, 52, 35_969_421_722, 0, 12)]),
    (true, [(Op::Le, 52, -65_293_293_674, 0, 12), (Op::Le, 30, 2, 0, 0)]),
    (false, [(Op::Ge, 17, 39_616_991_761, 0, 12), (Op::Eq, 37, 11, 0, 0)]),
    (false, [(Op::Ge, 17, 46_722_426_273, 0, 12), (Op::Le, 52, 41_957_845_164, 0, 12)]),
    (false, [(Op::Ge, 22, -1_113_311_961, 0, 12), (Op::Eq, 37, 6, 0, 0)]),
    (false, [(Op::Ge, 19, 58_487_164_589, 0, 12), (Op::Ge, 70, 833_333_333_333, 0, 12)]),
    (true, [(Op::Le, 58, 5_418_823_304_347, 0, 12), (Op::Le, 10, -422_866_719_649, 0, 12)]),
    (true, [(Op::Le, 59, 577_000_366_238, 0, 11), (Op::Le, 10, -422_866_719_649, 0, 12)]),
    (true, [(Op::Ge, 49, 5, 0, 0), (Op::Ge, 67, 33_759_209_683, 0, 12)]),
    (true, [(Op::Le, 58, 1_357_158_226_389, 0, 11), (Op::Le, 2, 1_924_913_661, 0, 12)]),
    (true, [(Op::Le, 58, 15_680_586_695_736, 0, 12), (Op::Ge, 42, 70_426_155_549_544, 0, 12)]),
    (false, [(Op::Ge, 54, 84_181_207_583_347, 0, 12), (Op::Le, 18, 12_838_900_259, 0, 12)]),
    (true, [(Op::Le, 15, -2_404_114_354_323, 0, 12), (Op::Ge, 29, 6, 0, 0)]),
    (true, [(Op::Le, 14, -2_344_526_637_064, 0, 12), (Op::Ge, 20, 40_068_069_939, 0, 12)]),
    (true, [(Op::Le, 14, -2_344_526_637_064, 0, 12), (Op::Le, 45, 952_041_479_441, 0, 12)]),
    (true, [(Op::Le, 24, 8_074_882_103, 0, 12), (Op::Ge, 66, 11_708_309_601, 0, 12)]),
    (true, [(Op::Le, 36, 365_308_166_414, 0, 12), (Op::Ge, 38, 18_854_227_163, 0, 12)]),
    (false, [(Op::Ge, 21, -717_425_385, 0, 12), (Op::Eq, 37, 12, 0, 0)]),
    (true, [(Op::Le, 24, 254_012_653, 0, 11), (Op::Eq, 37, 20, 0, 0)]),
    (false, [(Op::Ge, 21, -399_711_895, 0, 12), (Op::Eq, 37, 3, 0, 0)]),
    (false, [(Op::Ge, 19, 494_856_271, 0, 10), (Op::Le, 43, 55_226_633_333_302, 0, 12)]),
    (false, [(Op::Ge, 58, 9_775_223_967_825, 0, 11), (Op::Le, 40, -433_596_303, 0, 12)]),
    (true, [(Op::Le, 59, 2_417_455_072_988, 0, 12), (Op::Ge, 15, -1_412_432_258_616, 0, 12)]),
    (false, [(Op::Ge, 22, -643_444_193, 0, 12), (Op::Ge, 61, 151_279_003_962, 0, 12)]),
    (false, [(Op::Ge, 55, 85_600_813_068_941, 0, 12), (Op::Le, 51, 1_867_688_078, 0, 12)]),
    (true, [(Op::Le, 13, 8_177_319_388, 0, 12), (Op::Ge, 17, 14_620_999_612, 0, 12)]),
    (false, [(Op::Le, 69, 0, 0, 0), (Op::Le, 53, -8_350_840_003, 0, 12)]),
    (false, [(Op::Ge, 54, 8_721_365_662_096, 0, 11), (Op::Le, 46, -770_081_671_424, 0, 12)]),
    (true, [(Op::Le, 56, 18_578_805_575_288, 0, 12), (Op::Ge, 0, 13_915_733_334_115, 0, 12)]),
    (true, [(Op::Le, 58, 5_418_823_304_347, 0, 12), (Op::Le, 63, 2_890_012_136, 0, 12)]),
    (true, [(Op::Le, 21, -103_167_040_398, 0, 12), (Op::Ge, 71, 1, 0, 0)]),
    (true, [(Op::Le, 14, -2_742_641_598_641, 0, 12), (Op::Eq, 37, 20, 0, 0)]),
    (true, [(Op::Le, 15, -2_126_060_052_744, 0, 12), (Op::Ge, 55, 37_066_174_537_088, 0, 12)]),
    (false, [(Op::Ge, 20, 87_923_069_654, 0, 12), (Op::Le, 67, -10_375_267_305, 0, 12)]),
    (true, [(Op::Le, 15, -260_338_060_349, 0, 11), (Op::Ge, 30, 10, 0, 0)]),
    (true, [(Op::Le, 15, -260_338_060_349, 0, 11), (Op::Le, 35, 238_168_112_276, 0, 12)]),
    (false, [(Op::Ge, 33, 4, 0, 0), (Op::Le, 5, 26_576_198, 0, 12)]),
    (true, [(Op::Le, 13, 65_876_434_269, 0, 12), (Op::Ge, 57, 517_790_792_137, 0, 12)]),
    (true, [(Op::Le, 3, -91_259_020_395, 0, 12), (Op::Ge, 43, 60_696_816_665_125, 0, 12)]),
    (false, [(Op::Ge, 22, -4_419_256_154, 0, 12), (Op::Ge, 62, 2_427_041_781, 0, 11)]),
    (false, [(Op::Ge, 13, 981_752_292_899, 0, 12), (Op::Ge, 56, 79_132_602_591_729, 0, 12)]),
    (false, [(Op::Ge, 40, 8_650_326_859, 0, 12), (Op::Le, 2, 14_794_336_648, 0, 12)]),
    (true, [(Op::Le, 36, 336_010_955_575, 0, 12), (Op::Le, 0, -22_999_073_893_274, 0, 12)]),
    (false, [(Op::Ge, 55, 82_454_573_967_079, 0, 12), (Op::Ge, 62, 16_903_712_558, 0, 12)]),
    (false, [(Op::Ge, 55, 82_454_573_967_079, 0, 12), (Op::Le, 16, 639_508_691_164, 0, 12)]),
    (false, [(Op::Ge, 7, 44_598_294_078, 0, 12), (Op::Eq, 37, 21, 0, 0)]),
    (false, [(Op::Le, 48, 0, 0, 0), (Op::Le, 33, 2, 0, 0)]),
    (true, [(Op::Le, 36, 407_243_075_194, 0, 12), (Op::Ge, 45, 3_519_022_231_122, 0, 12)]),
    (true, [(Op::Le, 59, 3_695_232_436_063, 0, 12), (Op::Le, 66, -28_555_905_248, 0, 12)]),
    (true, [(Op::Le, 52, -65_293_293_674, 0, 12), (Op::Eq, 37, 20, 0, 0)]),
    (false, [(Op::Ge, 8, 61_916_514_734, 0, 12), (Op::Le, 10, -70_623_222_976, 0, 12)]),
    (false, [(Op::Ge, 54, 8_721_365_662_096, 0, 11), (Op::Le, 2, 5_976_537_031, 0, 12)]),
    (false, [(Op::Ge, 21, -399_711_895, 0, 12), (Op::Le, 41, -7_157_682_445, 0, 12)]),
    (false, [
        (Op::Ge, 20, 98_883_002_663, 0, 12), (Op::Between, 52, -2_369_659_403, 2_662_292_900, 12),
    ]),
    (false, [(Op::Ge, 21, -717_425_385, 0, 12), (Op::Le, 23, 4_099_778_821, 0, 12)]),
    (false, [(Op::Ge, 59, 96_060_395_753_965, 0, 12), (Op::Le, 63, 2_557_809_727, 0, 12)]),
    (true, [(Op::Le, 52, -65_293_293_674, 0, 12), (Op::Ge, 66, 1_518_218_635, 0, 12)]),
    (false, [(Op::Le, 69, 0, 0, 0), (Op::Le, 10, -422_866_719_649, 0, 12)]),
    (false, [(Op::Ge, 8, 61_916_514_734, 0, 12), (Op::Eq, 37, 15, 0, 0)]),
    (false, [(Op::Ge, 8, 61_916_514_734, 0, 12), (Op::Le, 66, -18_692_230_357, 0, 12)]),
    (false, [(Op::Ge, 22, -1_841_392_139, 0, 12), (Op::Le, 62, 132_092_228, 0, 12)]),
    (false, [(Op::Ge, 17, 39_616_991_761, 0, 12), (Op::Le, 0, -1_973_169_584_074, 0, 12)]),
    (true, [
        (Op::Le, 56, 18_578_805_575_288, 0, 12),
        (Op::Between, 34, -3_978_261_481, 4_053_759_322, 12),
    ]),
    (false, [(Op::Ge, 22, -1_113_311_961, 0, 12), (Op::Le, 10, -422_866_719_649, 0, 12)]),
    (false, [(Op::Ge, 59, 97_684_471_745_776, 0, 12), (Op::Le, 6, 264_860_593_835, 0, 12)]),
    (true, [(Op::Le, 54, 16_441_111_837_773, 0, 12), (Op::Ge, 56, 32_751_338_756_074, 0, 12)]),
    (true, [(Op::Le, 54, 22_509_371_455_114, 0, 12), (Op::Le, 10, -422_866_719_649, 0, 12)]),
    (false, [(Op::Ge, 22, -3_294_721_515, 0, 12), (Op::Ge, 5, 34_547_716_221, 0, 12)]),
    (true, [(Op::Le, 14, -2_742_641_598_641, 0, 12), (Op::Ge, 43, 55_226_633_333_302, 0, 12)]),
    (true, [(Op::Le, 50, -8_323_342_559, 0, 12), (Op::Ge, 51, 46_339_158_287, 0, 12)]),
    (true, [(Op::Le, 59, 13_599_250_472_473, 0, 12), (Op::Ge, 42, 70_426_155_549_544, 0, 12)]),
    (false, [(Op::Ge, 42, 92_869_319_882_182, 0, 12), (Op::Eq, 37, 12, 0, 0)]),
    (false, [(Op::Ge, 19, 41_798_655_327, 0, 12), (Op::Le, 60, 7_437_052, 0, 12)]),
    (false, [(Op::Ge, 33, 4, 0, 0), (Op::Le, 19, -22_743_054_412, 0, 12)]),
    (true, [(Op::Le, 14, -2_187_038_250_278, 0, 12), (Op::Le, 5, 2_236_733_024, 0, 12)]),
    (true, [(Op::Le, 24, 6_290_713_995, 0, 12), (Op::Le, 64, 283_114_920_997, 0, 12)]),
    (true, [(Op::Le, 24, 6_290_713_995, 0, 12), (Op::Le, 46, -1_513_028_289_708, 0, 12)]),
    (true, [(Op::Le, 15, -2_404_114_354_323, 0, 12), (Op::Ge, 67, 29_695_500_337, 0, 12)]),
    (false, [(Op::Ge, 33, 5, 0, 0), (Op::Le, 6, 9_353_487_116, 0, 12)]),
    (true, [(Op::Le, 14, -2_344_526_637_064, 0, 12), (Op::Ge, 66, 14_461_038_157, 0, 12)]),
    (false, [(Op::Ge, 40, 8_650_326_859, 0, 12), (Op::Eq, 37, 3, 0, 0)]),
    (true, [(Op::Le, 50, -11_045_001_747, 0, 12), (Op::Ge, 12, 178_957_313_232_822, 0, 12)]),
    (true, [(Op::Le, 43, 17_361_256_695_854, 0, 12), (Op::Le, 35, 8_265_122_723, 0, 12)]),
    (true, [(Op::Le, 17, -42_487_639_427, 0, 12), (Op::Le, 5, 506_599_686, 0, 12)]),
    (true, [(Op::Le, 54, 13_160_811_012_751, 0, 12), (Op::Ge, 53, -20_308_471_435, 0, 12)]),
    (true, [(Op::Le, 54, 13_160_811_012_751, 0, 12), (Op::Le, 1, -75_450_257_826, 0, 11)]),
    (true, [(Op::Le, 36, 336_010_955_575, 0, 12), (Op::Le, 16, 400_893_813_069, 0, 12)]),
    (true, [(Op::Ge, 61, 92_030_000_000_006, 0, 12), (Op::Ge, 57, 1_504_870_560_108, 0, 12)]),
    (true, [(Op::Le, 55, 29_828_518_892_658, 0, 12), (Op::Le, 16, 487_954_125_812, 0, 12)]),
    (true, [(Op::Ge, 49, 6, 0, 0), (Op::Le, 10, -134_109_392_588, 0, 12)]),
    (false, [(Op::Ge, 42, 88_952_653_717_272, 0, 12), (Op::Ge, 38, 10_204_835_097, 0, 12)]),
    (true, [(Op::Le, 55, 27_937_723_759_111, 0, 12), (Op::Le, 16, 517_302_629_848, 0, 12)]),
    (true, [(Op::Le, 55, 27_937_723_759_111, 0, 12), (Op::Le, 10, -60_399_701_237, 0, 11)]),
    (false, [(Op::Le, 48, 0, 0, 0), (Op::Le, 21, -70_358_681_217, 0, 12)]),
    (true, [(Op::Le, 59, 13_599_250_472_473, 0, 12), (Op::Le, 10, -60_399_701_237, 0, 11)]),
    (true, [
        (Op::Le, 59, 2_417_455_072_988, 0, 12),
        (Op::Between, 5, 2_236_733_024, 3_968_588_912, 12),
    ]),
    (false, [(Op::Ge, 22, -1_841_392_139, 0, 12), (Op::Le, 10, -422_866_719_649, 0, 12)]),
    (true, [(Op::Le, 15, -3_241_184_302_191, 0, 12), (Op::Le, 67, -25_444_647_829, 0, 12)]),
    (false, [(Op::Ge, 58, 98_683_285_404_721, 0, 12), (Op::Le, 63, 2_890_012_136, 0, 12)]),
    (false, [(Op::Ge, 21, -717_425_385, 0, 12), (Op::Le, 43, 33_487_434_256_627, 0, 12)]),
    (false, [(Op::Ge, 59, 98_632_249_177_409, 0, 12), (Op::Eq, 37, 0, 0, 0)]),
    (false, [(Op::Ge, 55, 85_600_813_068_941, 0, 12), (Op::Le, 42, 70_426_155_549_544, 0, 12)]),
    (false, [
        (Op::Ge, 55, 85_600_813_068_941, 0, 12),
        (Op::Between, 66, -3_184_483_329, 3_367_010_176, 12),
    ]),
    (true, [(Op::Le, 59, 3_695_232_436_063, 0, 12), (Op::Ge, 1, 3_927_244_001_484, 0, 12)]),
    (true, [(Op::Le, 13, 25_827_454_359, 0, 12), (Op::Ge, 16, 1_995_743_208_991, 0, 12)]),
    (false, [(Op::Ge, 58, 96_022_441_207_446, 0, 12), (Op::Le, 56, 47_277_822_488_034, 0, 12)]),
    (true, [(Op::Le, 52, -65_293_293_674, 0, 12), (Op::Eq, 37, 22, 0, 0)]),
    (true, [(Op::Le, 52, -65_293_293_674, 0, 12), (Op::Ge, 9, -42_951_672_527, 0, 12)]),
    (true, [(Op::Le, 19, -59_419_189_352, 0, 12), (Op::Eq, 37, 11, 0, 0)]),
    (false, [(Op::Le, 69, 0, 0, 0), (Op::Le, 13, 219_060_225_017, 0, 12)]),
    (false, [(Op::Le, 69, 0, 0, 0), (Op::Le, 43, 29_891_000_233_355, 0, 12)]),
    (false, [(Op::Le, 69, 0, 0, 0), (Op::Ge, 63, 21_404_310_273, 0, 12)]),
    (true, [(Op::Le, 58, 3_503_757_061_587, 0, 12), (Op::Le, 1, -75_450_257_826, 0, 11)]),
    (false, [(Op::Ge, 8, 61_916_514_734, 0, 12), (Op::Le, 64, 393_261_081_156, 0, 12)]),
    (false, [(Op::Ge, 17, 39_616_991_761, 0, 12), (Op::Le, 42, 56_429_411_536_562, 0, 12)]),
    (true, [(Op::Le, 56, 18_578_805_575_288, 0, 12), (Op::Le, 35, 31_888_152_245, 0, 11)]),
    (false, [(Op::Ge, 19, 58_487_164_589, 0, 12), (Op::Le, 16, 821_959_450_341, 0, 12)]),
    (true, [(Op::Le, 42, 5_127_057_896_226, 0, 12), (Op::Ge, 63, 24_659_827_828, 0, 12)]),
    (true, [(Op::Ge, 65, 4_082_365_664_208, 0, 12), (Op::Eq, 37, 19, 0, 0)]),
    (true, [(Op::Le, 59, 10_250_078_027_922, 0, 12), (Op::Ge, 43, 60_696_816_665_125, 0, 12)]),
    (true, [(Op::Le, 3, -286_381_306_679, 0, 12), (Op::Ge, 56, 37_712_563_201_862, 0, 12)]),
    (true, [(Op::Le, 14, -2_742_641_598_641, 0, 12), (Op::Le, 46, 609_778_900_626, 0, 12)]),
    (false, [(Op::Ge, 43, 90_605_260_301_048, 0, 12), (Op::Ge, 62, 14_296_584_568, 0, 12)]),
    (false, [(Op::Ge, 42, 92_869_319_882_182, 0, 12), (Op::Le, 17, 4_404_610_817, 0, 12)]),
    (false, [(Op::Ge, 42, 90_971_006_267_369, 0, 12), (Op::Le, 66, -10_067_309_537, 0, 12)]),
    (false, [(Op::Ge, 19, 41_798_655_327, 0, 12), (Op::Le, 67, -59_176_708_791, 0, 12)]),
    (true, [(Op::Le, 55, 12_039_352_357_177, 0, 12), (Op::Eq, 37, 3, 0, 0)]),
    (true, [(Op::Le, 55, 23_997_196_098_696, 0, 12), (Op::Le, 1, -21_606_633_337_189, 0, 12)]),
    (true, [(Op::Ge, 49, 3, 0, 0), (Op::Le, 35, 8_265_122_723, 0, 12)]),
    (true, [(Op::Le, 14, -2_187_038_250_278, 0, 12), (Op::Ge, 61, 127_376_961_958, 0, 11)]),
    (true, [(Op::Le, 54, 26_442_162_092_557, 0, 12), (Op::Le, 2, 2_316_019_964, 0, 12)]),
    (true, [(Op::Le, 15, -2_404_114_354_323, 0, 12), (Op::Ge, 40, 411_233_834, 0, 12)]),
    (false, [(Op::Ge, 13, 981_752_292_899, 0, 12), (Op::Ge, 61, 151_279_003_962, 0, 12)]),
    (false, [(Op::Ge, 3, 102_132_756_984, 0, 11), (Op::Le, 65, -82_264_325_452, 0, 11)]),
    (false, [(Op::Ge, 59, 89_551_972_381_464, 0, 12), (Op::Le, 4, -7_174_703_991, 0, 12)]),
    (true, [(Op::Le, 50, -11_045_001_747, 0, 12), (Op::Le, 64, 311_970_906_529, 0, 12)]),
    (true, [(Op::Ge, 61, 92_030_000_000_006, 0, 12), (Op::Ge, 60, 10_478_551_636, 0, 12)]),
    (true, [(Op::Ge, 61, 92_030_000_000_006, 0, 12), (Op::Le, 16, 562_623_940_981, 0, 12)]),
    (false, [(Op::Ge, 24, 154_339_127_652, 0, 12), (Op::Eq, 37, 3, 0, 0)]),
    (true, [(Op::Le, 55, 29_828_518_892_658, 0, 12), (Op::Le, 64, 247_637_271_351, 0, 12)]),
    (true, [(Op::Le, 42, 0, 0, 0), (Op::Eq, 37, 2, 0, 0)]),
    (true, [(Op::Le, 11, -227_797_658_840_935, 0, 12), (Op::Ge, 36, 609_974_251_707, 0, 12)]),
    (true, [(Op::Le, 36, 379_989_986_507, 0, 12), (Op::Ge, 17, 27_303_602_215, 0, 12)]),
    (false, [(Op::Ge, 42, 88_952_653_717_272, 0, 12), (Op::Le, 2, 2_837_437_065, 0, 12)]),
    (true, [(Op::Le, 43, 20_566_606_160_548, 0, 12), (Op::Le, 35, 4_133_007_456, 0, 12)]),
    (true, [(Op::Le, 13, 219_060_225_017, 0, 12), (Op::Ge, 0, 28_212_125_507_464, 0, 12)]),
    (true, [(Op::Le, 58, 25_103_448_275_861, 0, 12), (Op::Ge, 43, 7_969_050_284_032, 0, 11)]),
    (true, [(Op::Le, 14, -2_344_526_637_064, 0, 12), (Op::Ge, 43, 60_696_816_665_125, 0, 12)]),
    (false, [(Op::Ge, 58, 96_022_441_207_446, 0, 12), (Op::Le, 64, 34_972_482_193, 0, 11)]),
    (false, [(Op::Le, 69, 0, 0, 0), (Op::Ge, 61, 17_001_463_414_648, 0, 12)]),
    (false, [(Op::Ge, 17, 39_616_991_761, 0, 12), (Op::Le, 46, -864_407_170_253, 0, 12)]),
    (false, [
        (Op::Ge, 54, 8_721_365_662_096, 0, 11),
        (Op::Between, 66, -3_184_483_329, 3_367_010_176, 12),
    ]),
    (true, [(Op::Ge, 39, 99_803_555_555_201, 0, 12), (Op::Ge, 18, 32_891_842_078, 0, 12)]),
    (false, [(Op::Ge, 19, 41_798_655_327, 0, 12), (Op::Ge, 0, 6_734_015_313_961, 0, 12)]),
    (false, [(Op::Ge, 22, -5_068_052_866, 0, 12), (Op::Ge, 2, 22_335_792_029, 0, 12)]),
    (false, [(Op::Ge, 23, 113_311_886_667, 0, 12), (Op::Eq, 68, 3, 0, 0)]),
    (true, [(Op::Le, 3, -25_147_324_264, 0, 12), (Op::Ge, 11, -9_037_920_447_042, 0, 11)]),
    (false, [(Op::Ge, 32, 5, 0, 0), (Op::Le, 53, -41_498_541_944, 0, 12)]),
    (false, [(Op::Ge, 55, 85_600_813_068_941, 0, 12), (Op::Ge, 38, 6_878_572_146, 0, 12)]),
    (false, [(Op::Ge, 18, 54_731_271_045, 0, 12), (Op::Ge, 1, 6_159_740_467_929, 0, 12)]),
    (false, [(Op::Ge, 21, -717_425_385, 0, 12), (Op::Le, 17, 2_014_123_904, 0, 12)]),
    (true, [(Op::Le, 17, -51_248_070_032, 0, 12), (Op::Ge, 34, -11_986_514_488, 0, 12)]),
    (false, [(Op::Ge, 55, 85_600_813_068_941, 0, 12), (Op::Le, 57, -1_574_676_055_078, 0, 12)]),
    (false, [(Op::Ge, 58, 9_473_247_534_402, 0, 11), (Op::Le, 10, -60_399_701_237, 0, 11)]),
    (true, [(Op::Ge, 39, 99_803_555_555_201, 0, 12), (Op::Ge, 34, 7_443_274_853, 0, 12)]),
    (true, [(Op::Ge, 49, 5, 0, 0), (Op::Ge, 23, 43_161_981_738, 0, 12)]),
    (true, [(Op::Ge, 65, 4_082_365_664_208, 0, 12), (Op::Between, 37, 4, 7, 0)]),
    (true, [(Op::Le, 15, -2_126_060_052_744, 0, 12), (Op::Ge, 67, 33_759_209_683, 0, 12)]),
    (true, [(Op::Le, 24, 1_171_005_877, 0, 12), (Op::Eq, 37, 16, 0, 0)]),
    (true, [(Op::Le, 36, 365_308_166_414, 0, 12), (Op::Le, 16, 400_893_813_069, 0, 12)]),
    (false, [(Op::Ge, 42, 88_952_653_717_272, 0, 12), (Op::Le, 2, 31_654_888, 0, 10)]),
    (false, [(Op::Ge, 54, 78_115_236_912_005, 0, 12), (Op::Le, 2, 2_837_437_065, 0, 12)]),
    (false, [(Op::Ge, 40, 7_181_184_238, 0, 12), (Op::Eq, 37, 23, 0, 0)]),
    (false, [(Op::Ge, 17, 46_722_426_273, 0, 12), (Op::Eq, 68, 3, 0, 0)]),
    (false, [(Op::Ge, 42, 92_869_319_882_182, 0, 12), (Op::Le, 36, 407_243_075_194, 0, 12)]),
    (true, [(Op::Le, 55, 23_997_196_098_696, 0, 12), (Op::Ge, 63, 32_227_797_354, 0, 12)]),
    (true, [(Op::Ge, 61, 92_030_000_000_006, 0, 12), (Op::Ge, 24, 69_815_156_187, 0, 12)]),
    (true, [(Op::Le, 55, 29_828_518_892_658, 0, 12), (Op::Le, 16, 517_302_629_848, 0, 12)]),
    (false, [(Op::Ge, 20, 98_883_002_663, 0, 12), (Op::Ge, 1, 1_161_740_673_548, 0, 12)]),
    (false, [(Op::Ge, 21, -399_711_895, 0, 12), (Op::Eq, 37, 5, 0, 0)]),
    (false, [(Op::Ge, 58, 98_683_285_404_721, 0, 12), (Op::Ge, 33, 6, 0, 0)]),
    (false, [(Op::Ge, 19, 494_856_271, 0, 10), (Op::Le, 2, 11_727_397_383, 0, 12)]),
    (false, [(Op::Ge, 20, 98_883_002_663, 0, 12), (Op::Ge, 2, 25_050_223_404, 0, 12)]),
    (true, [(Op::Le, 13, 886_273_409, 0, 12), (Op::Le, 46, -1_129_440_954_302, 0, 12)]),
    (false, [(Op::Ge, 17, 39_616_991_761, 0, 12), (Op::Eq, 37, 12, 0, 0)]),
    (false, [(Op::Ge, 58, 9_473_247_534_402, 0, 11), (Op::Ge, 1, 834_297_868_579, 0, 12)]),
    (true, [(Op::Le, 23, 1_538_919_285, 0, 12), (Op::Ge, 67, 25_184_469_595, 0, 12)]),
    (true, [(Op::Ge, 49, 4, 0, 0), (Op::Le, 65, -1_341_363_982_825, 0, 12)]),
    (true, [(Op::Le, 40, -8_589_755_612, 0, 12), (Op::Le, 23, 4_099_778_821, 0, 12)]),
    (false, [(Op::Ge, 22, -23_840_774, 0, 10), (Op::Ge, 41, 2_102_307_851, 0, 11)]),
    (false, [(Op::Ge, 43, 90_605_260_301_048, 0, 12), (Op::Eq, 37, 1, 0, 0)]),
    (false, [(Op::Ge, 58, 92_430_123_495_695, 0, 12), (Op::Le, 64, 283_114_920_997, 0, 12)]),
    (true, [(Op::Le, 24, 4_197_919_734, 0, 12), (Op::Le, 45, 329_592_884_841, 0, 12)]),
    (false, [(Op::Ge, 32, 5, 0, 0), (Op::Le, 1, -39_147_158_960_848, 0, 12)]),
    (true, [(Op::Le, 36, 336_010_955_575, 0, 12), (Op::Ge, 17, 14_620_999_612, 0, 12)]),
    (true, [(Op::Le, 15, -1_840_110_258_471, 0, 12), (Op::Le, 1, -10_991_762_317_629, 0, 12)]),
    (true, [(Op::Le, 15, -1_840_110_258_471, 0, 12), (Op::Le, 35, 40_104_438_977, 0, 12)]),
    (true, [(Op::Le, 50, -14_325_177_909, 0, 12), (Op::Le, 64, 416_983_292_711, 0, 12)]),
    (true, [(Op::Le, 36, 379_989_986_507, 0, 12), (Op::Ge, 52, 35_969_421_722, 0, 12)]),
    (true, [(Op::Le, 23, 2_650_174_002, 0, 12), (Op::Ge, 45, 3_036_678_151_198, 0, 12)]),
    (false, [(Op::Ge, 19, 494_856_271, 0, 10), (Op::Le, 6, 73_463_020_111, 0, 12)]),
    (false, [(Op::Ge, 58, 9_473_247_534_402, 0, 11), (Op::Le, 33, 0, 0, 0)]),
    (true, [(Op::Le, 56, 21_149_731_261_368, 0, 12), (Op::Eq, 37, 16, 0, 0)]),
    (true, [(Op::Le, 23, 194_583_421, 0, 11), (Op::Ge, 67, 25_184_469_595, 0, 12)]),
    (true, [(Op::Le, 15, -2_404_114_354_323, 0, 12), (Op::Ge, 7, -3_738_333_088, 0, 12)]),
    (true, [(Op::Le, 50, -14_325_177_909, 0, 12), (Op::Le, 64, 468_464_018_164, 0, 12)]),
    (true, [
        (Op::Le, 59, 2_417_455_072_988, 0, 12),
        (Op::Between, 6, 264_860_593_835, 585_175_311_940, 12),
    ]),
    (true, [
        (Op::Le, 59, 2_417_455_072_988, 0, 12),
        (Op::Between, 46, -614_786_474_045, 207_539_773_281, 12),
    ]),
    (false, [(Op::Ge, 59, 96_060_395_753_965, 0, 12), (Op::Ge, 60, 3_977_366_118, 0, 12)]),
    (false, [(Op::Ge, 59, 96_060_395_753_965, 0, 12), (Op::Le, 63, 2_890_012_136, 0, 12)]),
    (false, [(Op::Le, 69, 0, 0, 0), (Op::Le, 43, 3_931_642_972_534, 0, 11)]),
    (true, [(Op::Le, 36, 365_308_166_414, 0, 12), (Op::Le, 2, 1_924_913_661, 0, 12)]),
    (false, [(Op::Ge, 58, 98_683_285_404_721, 0, 12), (Op::Eq, 37, 3, 0, 0)]),
    (false, [
        (Op::Ge, 18, 66_229_680_906, 0, 12), (Op::Between, 66, -5_669_694_246, 6_070_412_698, 12),
    ]),
    (true, [(Op::Le, 13, 8_177_319_388, 0, 12), (Op::Ge, 63, 28_499_754_838, 0, 12)]),
    (true, [(Op::Le, 56, 18_578_805_575_288, 0, 12), (Op::Eq, 37, 9, 0, 0)]),
    (true, [(Op::Le, 56, 18_578_805_575_288, 0, 12), (Op::Eq, 68, 2, 0, 0)]),
    (true, [
        (Op::Le, 21, -103_167_040_398, 0, 12),
        (Op::Between, 67, -5_880_312_126, 6_771_478_285, 12),
    ]),
    (true, [(Op::Le, 14, -2_561_260_986_784, 0, 12), (Op::Ge, 3, 302_583_639_175, 0, 12)]),
    (true, [(Op::Le, 42, 5_127_057_896_226, 0, 12), (Op::Eq, 37, 7, 0, 0)]),
    (true, [(Op::Le, 54, 16_441_111_837_773, 0, 12), (Op::Le, 65, -478_087_109_912, 0, 12)]),
    (true, [(Op::Le, 13, 100_215_016_184, 0, 12), (Op::Ge, 34, 21_538_994_561, 0, 12)]),
    (true, [(Op::Le, 55, 12_039_352_357_177, 0, 12), (Op::Ge, 40, -2_122_380_767, 0, 12)]),
    (true, [(Op::Le, 19, -49_413_631_372, 0, 12), (Op::Le, 0, -2_590_382_463_299, 0, 12)]),
    (true, [(Op::Le, 24, 5_506_890_184, 0, 12), (Op::Ge, 42, 79_537_380_124_647, 0, 12)]),
    (true, [(Op::Le, 3, -25_147_324_264, 0, 12), (Op::Le, 0, -1_973_169_584_074, 0, 12)]),
    (false, [
        (Op::Ge, 3, 102_132_756_984, 0, 11), (Op::Between, 51, -1_576_545_149, 1_867_688_078, 12),
    ]),
    (false, [(Op::Ge, 32, 5, 0, 0), (Op::Le, 65, -1_457_487_435_051, 0, 12)]),
    (true, [(Op::Le, 50, -11_045_001_747, 0, 12), (Op::Le, 35, 8_265_122_723, 0, 12)]),
    (true, [(Op::Le, 54, 13_160_811_012_751, 0, 12), (Op::Ge, 39, 27_144_615_384_633, 0, 12)]),
    (true, [(Op::Le, 54, 13_160_811_012_751, 0, 12), (Op::Ge, 51, -3_698_886_648, 0, 12)]),
    (true, [(Op::Le, 54, 13_160_811_012_751, 0, 12), (Op::Le, 64, 697_599_259_542, 0, 12)]),
    (true, [(Op::Le, 36, 336_010_955_575, 0, 12), (Op::Ge, 12, 124_413_127_609_854, 0, 12)]),
    (false, [(Op::Ge, 58, 8_760_245_942_582, 0, 11), (Op::Le, 42, 29_338_239_708_836, 0, 12)]),
    (true, [(Op::Le, 42, 0, 0, 0), (Op::Ge, 30, 9, 0, 0)]),
    (true, [(Op::Ge, 49, 6, 0, 0), (Op::Eq, 37, 7, 0, 0)]),
    (false, [(Op::Ge, 7, 44_598_294_078, 0, 12), (Op::Eq, 37, 23, 0, 0)]),
    (false, [(Op::Ge, 21, -399_711_895, 0, 12), (Op::Between, 37, 0, 3, 0)]),
    (false, [(Op::Ge, 20, 98_883_002_663, 0, 12), (Op::Le, 44, 60, 0, 0)]),
    (false, [(Op::Ge, 58, 9_473_247_534_402, 0, 11), (Op::Le, 64, 34_972_482_193, 0, 11)]),
    (false, [(Op::Ge, 42, 92_869_319_882_182, 0, 12), (Op::Ge, 38, 6_878_572_146, 0, 12)]),
    (false, [(Op::Ge, 58, 96_022_441_207_446, 0, 12), (Op::Ge, 38, 6_878_572_146, 0, 12)]),
    (true, [(Op::Le, 24, 254_012_653, 0, 11), (Op::Eq, 37, 8, 0, 0)]),
    (true, [(Op::Le, 58, 7_081_893_123_604, 0, 12), (Op::Le, 46, -975_669_526_392, 0, 12)]),
    (true, [(Op::Le, 59, 7_366_825_932_134, 0, 12), (Op::Ge, 66, 7_976_878_246, 0, 12)]),
    (true, [(Op::Le, 54, 22_509_371_455_114, 0, 12), (Op::Ge, 41, 2_976_402_628, 0, 12)]),
    (false, [(Op::Ge, 43, 90_605_260_301_048, 0, 12), (Op::Le, 1, -1_127_098_909_018, 0, 12)]),
    (true, [(Op::Le, 15, -260_338_060_349, 0, 11), (Op::Ge, 18, -660_351_419, 0, 11)]),
    (false, [(Op::Ge, 42, 92_869_319_882_182, 0, 12), (Op::Le, 60, 272_339_529, 0, 12)]),
    (true, [(Op::Le, 3, -91_259_020_395, 0, 12), (Op::Ge, 20, 23_762_891_074, 0, 12)]),
    (true, [(Op::Le, 11, -227_797_658_840_935, 0, 12), (Op::Ge, 67, 18_190_418_356, 0, 12)]),
    (false, [(Op::Ge, 56, 79_132_602_591_729, 0, 12), (Op::Le, 10, -134_109_392_588, 0, 12)]),
    (true, [
        (Op::Ge, 5, 34_547_716_221, 0, 12), (Op::Between, 63, 8_266_567_424, 11_166_047_019, 12),
    ]),
    (true, [
        (Op::Le, 14, -2_187_038_250_278, 0, 12),
        (Op::Between, 45, 754_270_965_462, 952_041_479_441, 12),
    ]),
    (false, [(Op::Ge, 3, 102_132_756_984, 0, 11), (Op::Le, 65, -613_306_838_255, 0, 12)]),
    (true, [
        (Op::Le, 14, -2_344_526_637_064, 0, 12),
        (Op::Between, 53, -3_610_257_481, 4_009_867_371, 12),
    ]),
    (true, [(Op::Ge, 49, 6, 0, 0), (Op::Eq, 37, 20, 0, 0)]),
    (true, [(Op::Le, 13, 886_273_409, 0, 12), (Op::Ge, 2, 14_794_336_648, 0, 12)]),
    (true, [(Op::Le, 19, -59_419_189_352, 0, 12), (Op::Le, 14, -2_742_641_598_641, 0, 12)]),
    (true, [(Op::Le, 56, 18_578_805_575_288, 0, 12), (Op::Ge, 8, -13_744_726_931, 0, 12)]),
    (true, [(Op::Le, 58, 5_418_823_304_347, 0, 12), (Op::Ge, 59, 62_058_256_213_688, 0, 12)]),
    (true, [(Op::Le, 58, 2_062_588_143_616, 0, 12), (Op::Eq, 37, 6, 0, 0)]),
    (true, [
        (Op::Le, 59, 577_000_366_238, 0, 11), (Op::Between, 7, -1_606_479_749, 1_843_361_495, 12),
    ]),
    (true, [(Op::Le, 40, -8_589_755_612, 0, 12), (Op::Le, 62, 529_564_504, 0, 12)]),
    (true, [(Op::Le, 56, 21_149_731_261_368, 0, 12), (Op::Ge, 12, -8_821_972_132_586, 0, 11)]),
    (true, [(Op::Le, 56, 21_149_731_261_368, 0, 12), (Op::Le, 45, 494_425_129_905, 0, 12)]),
    (true, [(Op::Ge, 65, 4_082_365_664_208, 0, 12), (Op::Eq, 37, 13, 0, 0)]),
    (false, [(Op::Ge, 43, 90_605_260_301_048, 0, 12), (Op::Le, 42, 81_594_378_791_001, 0, 12)]),
    (true, [(Op::Le, 58, 1_357_158_226_389, 0, 11), (Op::Ge, 51, 3_969_005_461, 0, 12)]),
    (true, [(Op::Le, 59, 15_545_991_535_082, 0, 12), (Op::Ge, 12, -21_140_333_967_991, 0, 12)]),
    (false, [
        (Op::Ge, 55, 82_454_573_967_079, 0, 12),
        (Op::Between, 66, -1_328_609_306, 1_518_218_635, 12),
    ]),
    (true, [(Op::Le, 36, 365_308_166_414, 0, 12), (Op::Ge, 9, 70_114_758_373, 0, 12)]),
    (true, [(Op::Le, 50, -14_325_177_909, 0, 12), (Op::Ge, 17, 27_303_602_215, 0, 12)]),
    (true, [(Op::Le, 43, 12_370_381_786_246, 0, 12), (Op::Ge, 42, 29_338_239_708_836, 0, 12)]),
    (false, [(Op::Ge, 59, 87_917_342_833_765, 0, 12), (Op::Le, 41, -7_157_682_445, 0, 12)]),
    (false, [(Op::Ge, 15, 1_834_921_291_675, 0, 12), (Op::Le, 40, -93_425_444, 0, 11)]),
    (false, [
        (Op::Ge, 58, 98_683_285_404_721, 0, 12),
        (Op::Between, 20, -4_935_772_745, 6_972_713_042, 12),
    ]),
    (true, [(Op::Le, 24, 254_012_653, 0, 11), (Op::Le, 64, 468_464_018_164, 0, 12)]),
    (false, [(Op::Ge, 55, 85_600_813_068_941, 0, 12), (Op::Le, 12, 89_545_149_191_696, 0, 12)]),
    (true, [(Op::Le, 13, 25_827_454_359, 0, 12), (Op::Le, 64, 247_637_271_351, 0, 12)]),
    (true, [(Op::Le, 56, 18_578_805_575_288, 0, 12), (Op::Ge, 52, -18_916_226_339, 0, 12)]),
    (true, [(Op::Le, 24, 1_716_222_973, 0, 12), (Op::Eq, 37, 11, 0, 0)]),
    (true, [(Op::Le, 59, 7_366_825_932_134, 0, 12), (Op::Ge, 42, 56_429_411_536_562, 0, 12)]),
    (true, [(Op::Le, 59, 7_366_825_932_134, 0, 12), (Op::Ge, 36, 555_858_847_899, 0, 12)]),
    (true, [(Op::Le, 24, 4_197_919_734, 0, 12), (Op::Ge, 66, 7_976_878_246, 0, 12)]),
    (true, [(Op::Le, 14, -2_187_038_250_278, 0, 12), (Op::Le, 64, 604_709_102_916, 0, 12)]),
    (true, [(Op::Le, 50, -11_045_001_747, 0, 12), (Op::Le, 1, -376_852_964_393, 0, 12)]),
    (true, [(Op::Le, 32, 1, 0, 0), (Op::Le, 65, -1_457_487_435_051, 0, 12)]),
    (true, [(Op::Le, 56, 18_578_805_575_288, 0, 12), (Op::Ge, 6, 841_316_476_733, 0, 12)]),
    (true, [(Op::Le, 23, 1_538_919_285, 0, 12), (Op::Eq, 37, 22, 0, 0)]),
    (true, [(Op::Le, 13, 39_485_687_121, 0, 12), (Op::Ge, 52, 35_969_421_722, 0, 12)]),
    (false, [(Op::Ge, 22, -23_840_774, 0, 10), (Op::Eq, 37, 0, 0, 0)]),
    (false, [(Op::Ge, 59, 97_684_471_745_776, 0, 12), (Op::Le, 13, 848_302_105_456, 0, 12)]),
    (false, [(Op::Ge, 33, 4, 0, 0), (Op::Le, 40, -2_824_620_023, 0, 12)]),
    (true, [(Op::Le, 36, 379_989_986_507, 0, 12), (Op::Le, 2, 1_924_913_661, 0, 12)]),
    (false, [(Op::Ge, 20, 98_883_002_663, 0, 12), (Op::Ge, 1, 834_297_868_579, 0, 12)]),
    (false, [(Op::Ge, 21, -152_070_846, 0, 11), (Op::Le, 43, 33_487_434_256_627, 0, 12)]),
    (true, [(Op::Le, 50, -11_045_001_747, 0, 12), (Op::Ge, 8, 40_574_464_343, 0, 12)]),
    (false, [(Op::Ge, 13, 981_752_292_899, 0, 12), (Op::Ge, 53, 42_504_219_742, 0, 12)]),
    (false, [(Op::Ge, 58, 98_683_285_404_721, 0, 12), (Op::Le, 16, 740_047_714_875, 0, 12)]),
    (false, [(Op::Ge, 32, 5, 0, 0), (Op::Le, 5, 49_170_938, 0, 12)]),
    (true, [(Op::Le, 50, -8_323_342_559, 0, 12), (Op::Ge, 52, 53_650_017_546, 0, 12)]),
    (true, [(Op::Le, 24, 254_012_653, 0, 11), (Op::Le, 16, 44_182_204_197, 0, 11)]),
    (true, [(Op::Le, 13, 8_177_319_388, 0, 12), (Op::Ge, 38, 102_169_501, 0, 12)]),
    (true, [
        (Op::Le, 58, 3_503_757_061_587, 0, 12),
        (Op::Between, 39, 276_646_203_011, 1_369_604_883_100, 12),
    ]),
    (false, [(Op::Ge, 58, 8_760_245_942_582, 0, 11), (Op::Le, 34, -858_624_762, 0, 12)]),
    (true, [(Op::Le, 42, 0, 0, 0), (Op::Ge, 11, -72_536_398_228_737, 0, 12)]),
    (true, [(Op::Le, 13, 886_273_409, 0, 12), (Op::Le, 35, 63_903_626_236, 0, 12)]),
    (false, [(Op::Le, 69, 0, 0, 0), (Op::Le, 65, -917_339_193_708, 0, 12)]),
    (false, [(Op::Le, 69, 0, 0, 0), (Op::Ge, 34, 26_410_385_548, 0, 12)]),
    (true, [(Op::Ge, 65, 4_082_365_664_208, 0, 12), (Op::Ge, 60, 16_082_751_957, 0, 12)]),
    (true, [
        (Op::Ge, 65, 4_082_365_664_208, 0, 12),
        (Op::Between, 14, -1_130_209_885_596, 1_148_339_337_785, 12),
    ]),
    (true, [(Op::Le, 3, -286_381_306_679, 0, 12), (Op::Le, 67, -25_444_647_829, 0, 12)]),
    (true, [(Op::Le, 36, 336_010_955_575, 0, 12), (Op::Ge, 52, 19_270_109_235, 0, 12)]),
    (true, [(Op::Le, 4, -5_185_093_586, 0, 12), (Op::Ge, 11, 19_729_361_706_083, 0, 11)]),
    (true, [(Op::Le, 23, 5_311_716_219, 0, 12), (Op::Ge, 41, 13_210_383_149, 0, 12)]),
    (false, [(Op::Ge, 59, 98_632_249_177_409, 0, 12), (Op::Ge, 43, 90_605_260_301_048, 0, 12)]),
    (false, [(Op::Ge, 59, 94_755_383_566_354, 0, 12), (Op::Le, 66, -10_067_309_537, 0, 12)]),
    (true, [(Op::Le, 13, 886_273_409, 0, 12), (Op::Eq, 37, 10, 0, 0)]),
    (false, [(Op::Ge, 19, 58_487_164_589, 0, 12), (Op::Le, 42, 56_429_411_536_562, 0, 12)]),
    (true, [(Op::Ge, 39, 99_803_555_555_201, 0, 12), (Op::Eq, 37, 6, 0, 0)]),
    (true, [(Op::Ge, 39, 99_803_555_555_201, 0, 12), (Op::Ge, 13, 944_724_032_971, 0, 12)]),
    (false, [(Op::Ge, 21, -152_070_846, 0, 11), (Op::Ge, 0, 434_858_605_411, 0, 11)]),
    (true, [(Op::Ge, 5, 34_547_716_221, 0, 12), (Op::Eq, 37, 13, 0, 0)]),
    (true, [
        (Op::Ge, 5, 34_547_716_221, 0, 12), (Op::Between, 8, -10_096_768_528, 10_430_496_887, 12),
    ]),
    (false, [(Op::Ge, 43, 90_605_260_301_048, 0, 12), (Op::Eq, 37, 5, 0, 0)]),
    (false, [(Op::Ge, 43, 90_605_260_301_048, 0, 12), (Op::Le, 45, 470_794_215_282, 0, 12)]),
    (false, [(Op::Ge, 33, 4, 0, 0), (Op::Le, 24, 6_290_713_995, 0, 12)]),
    (true, [(Op::Le, 55, 23_997_196_098_696, 0, 12), (Op::Le, 45, 391_660_049_444, 0, 12)]),
    (true, [(Op::Ge, 49, 3, 0, 0), (Op::Le, 64, 216_880_790_466, 0, 12)]),
    (false, [(Op::Ge, 40, 7_181_184_238, 0, 12), (Op::Le, 9, -859_781_896, 0, 11)]),
    (true, [(Op::Le, 55, 20_330_049_175_336, 0, 12), (Op::Le, 65, -74_850_086_188, 0, 11)]),
    (false, [(Op::Ge, 13, 981_752_292_899, 0, 12), (Op::Ge, 70, 833_333_333_333, 0, 12)]),
    (true, [(Op::Ge, 61, 92_030_000_000_006, 0, 12), (Op::Eq, 37, 7, 0, 0)]),
    (false, [(Op::Ge, 58, 8_760_245_942_582, 0, 11), (Op::Le, 12, -44_511_965_767_527, 0, 12)]),
    (true, [(Op::Le, 43, 1_530_340_668_771, 0, 11), (Op::Le, 35, 16_307_053_175, 0, 12)]),
    (false, [(Op::Ge, 19, 37_047_849_353, 0, 12), (Op::Le, 40, -93_425_444, 0, 11)]),
    (true, [(Op::Le, 54, 18_659_987_150_027, 0, 12), (Op::Le, 16, 612_626_728_912, 0, 12)]),
    (true, [(Op::Le, 4, -5_185_093_586, 0, 12), (Op::Ge, 0, 13_915_733_334_115, 0, 12)]),
    (true, [(Op::Le, 43, 12_370_381_786_246, 0, 12), (Op::Le, 2, 4_669_501_157, 0, 12)]),
    (false, [(Op::Ge, 14, 1_351_244_737_465, 0, 12), (Op::Le, 21, -39_152_957_487, 0, 12)]),
    (false, [(Op::Ge, 14, 1_351_244_737_465, 0, 12), (Op::Le, 3, 398_786_691_967, 0, 12)]),
    (false, [(Op::Ge, 58, 83_212_445_361_432, 0, 12), (Op::Le, 40, -2_122_380_767, 0, 12)]),
    (true, [(Op::Le, 43, 20_566_606_160_548, 0, 12), (Op::Le, 16, 487_954_125_812, 0, 12)]),
    (true, [(Op::Le, 11, -196_455_697_922_622, 0, 12), (Op::Ge, 15, -804_112_577_713, 0, 12)]),
    (false, [(Op::Ge, 59, 96_060_395_753_965, 0, 12), (Op::Eq, 37, 3, 0, 0)]),
    (true, [(Op::Le, 42, 5_127_057_896_226, 0, 12), (Op::Le, 70, 5, 0, 1)]),
    (true, [(Op::Le, 40, -8_589_755_612, 0, 12), (Op::Le, 0, -395_621_554_253, 0, 12)]),
    (true, [(Op::Le, 54, 22_509_371_455_114, 0, 12), (Op::Ge, 15, -1_189_485_911_056, 0, 12)]),
    (false, [(Op::Ge, 21, -152_070_846, 0, 11), (Op::Eq, 37, 0, 0, 0)]),
    (true, [(Op::Le, 24, 254_012_653, 0, 11), (Op::Ge, 38, 2_459_555_014, 0, 12)]),
    (false, [(Op::Ge, 22, -23_840_774, 0, 10), (Op::Le, 62, 132_092_228, 0, 12)]),
    (true, [(Op::Le, 13, 65_876_434_269, 0, 12), (Op::Le, 36, 216_230_850_514, 0, 12)]),
    (true, [(Op::Le, 42, 0, 0, 0), (Op::Ge, 54, 32_766_297_807_582, 0, 12)]),
    (true, [(Op::Le, 11, -196_455_697_922_622, 0, 12), (Op::Eq, 37, 22, 0, 0)]),
    (false, [(Op::Ge, 23, 113_311_886_667, 0, 12), (Op::Le, 45, 545_495_059_332, 0, 12)]),
    (true, [(Op::Ge, 49, 6, 0, 0), (Op::Le, 1, -1_127_098_909_018, 0, 12)]),
    (false, [(Op::Ge, 59, 98_632_249_177_409, 0, 12), (Op::Ge, 60, 972_276_508, 0, 12)]),
    (true, [(Op::Le, 59, 2_417_455_072_988, 0, 12), (Op::Ge, 0, 228_653_572_966, 0, 12)]),
    (false, [(Op::Le, 69, 0, 0, 0), (Op::Eq, 37, 12, 0, 0)]),
    (false, [(Op::Le, 69, 0, 0, 0), (Op::Ge, 60, 10_478_551_636, 0, 12)]),
    (false, [(Op::Ge, 22, -1_841_392_139, 0, 12), (Op::Le, 67, -20_395_846_802, 0, 12)]),
    (true, [(Op::Ge, 39, 99_803_555_555_201, 0, 12), (Op::Ge, 58, 89_433_032_932_232, 0, 12)]),
    (true, [(Op::Le, 13, 120_614_853_726, 0, 12), (Op::Ge, 53, 88_242_640_823, 0, 12)]),
    (false, [(Op::Ge, 19, 41_798_655_327, 0, 12), (Op::Le, 10, -422_866_719_649, 0, 12)]),
    (true, [(Op::Le, 55, 23_997_196_098_696, 0, 12), (Op::Le, 0, -11_652_215_766_136, 0, 12)]),
    (false, [(Op::Ge, 13, 981_752_292_899, 0, 12), (Op::Ge, 66, 17_835_979_054, 0, 12)]),
    (false, [(Op::Ge, 42, 88_952_653_717_272, 0, 12), (Op::Ge, 0, 13_915_733_334_115, 0, 12)]),
    (true, [(Op::Le, 36, 407_243_075_194, 0, 12), (Op::Ge, 52, 41_957_845_164, 0, 12)]),
    (true, [(Op::Le, 13, 886_273_409, 0, 12), (Op::Le, 40, -2_122_380_767, 0, 12)]),
    (true, [(Op::Le, 14, -2_187_038_250_278, 0, 12), (Op::Ge, 17, -4_060_754_253, 0, 12)]),
    (false, [(Op::Ge, 59, 96_060_395_753_965, 0, 12), (Op::Eq, 37, 11, 0, 0)]),
    (true, [(Op::Le, 13, 886_273_409, 0, 12), (Op::Le, 16, 639_508_691_164, 0, 12)]),
    (true, [(Op::Ge, 64, 486_378_068_509, 0, 11), (Op::Eq, 68, 0, 0, 0)]),
    (false, [(Op::Ge, 22, -1_841_392_139, 0, 12), (Op::Eq, 37, 23, 0, 0)]),
    (true, [(Op::Le, 58, 5_418_823_304_347, 0, 12), (Op::Ge, 16, 1_731_253_361_596, 0, 12)]),
    (true, [
        (Op::Le, 54, 16_441_111_837_773, 0, 12),
        (Op::Between, 51, -3_698_886_648, 3_969_005_461, 12),
    ]),
    (true, [(Op::Ge, 61, 92_030_000_000_006, 0, 12), (Op::Ge, 9, 3_223_102_564, 0, 11)]),
    (false, [(Op::Ge, 21, -152_070_846, 0, 11), (Op::Le, 42, 36_602_220_742_899, 0, 12)]),
    (true, [(Op::Le, 14, -1_130_209_885_596, 0, 12), (Op::Ge, 20, 65_530_755_608, 0, 12)]),
    (true, [(Op::Le, 11, -177_186_804_964_052, 0, 12), (Op::Le, 10, -286_078_754_321, 0, 12)]),
    (true, [(Op::Le, 55, 27_937_723_759_111, 0, 12), (Op::Ge, 20, 14_295_696_336, 0, 12)]),
    (false, [(Op::Ge, 14, 1_714_252_214_364, 0, 12), (Op::Le, 46, -1_129_440_954_302, 0, 12)]),
    (false, [(Op::Ge, 54, 67_899_626_426_361, 0, 12), (Op::Le, 41, -9_856_122_478, 0, 12)]),
    (true, [(Op::Le, 19, -59_419_189_352, 0, 12), (Op::Le, 38, 663_724_138, 0, 12)]),
    (true, [(Op::Le, 14, -2_742_641_598_641, 0, 12), (Op::Eq, 37, 10, 0, 0)]),
    (true, [(Op::Le, 15, -2_126_060_052_744, 0, 12), (Op::Le, 46, -975_669_526_392, 0, 12)]),
    (false, [(Op::Ge, 20, 87_923_069_654, 0, 12), (Op::Le, 42, 29_338_239_708_836, 0, 12)]),
    (true, [(Op::Le, 59, 13_599_250_472_473, 0, 12), (Op::Le, 1, -21_606_633_337_189, 0, 12)]),
    (true, [(Op::Le, 58, 1_357_158_226_389, 0, 11), (Op::Le, 1, -21_606_633_337_189, 0, 12)]),
    (true, [(Op::Le, 24, 5_506_890_184, 0, 12), (Op::Ge, 43, 70_060_688_839_056, 0, 12)]),
    (true, [(Op::Le, 14, -1_735_894_374_538, 0, 12), (Op::Ge, 43, 7_405_027_843_037, 0, 11)]),
    (false, [(Op::Ge, 32, 5, 0, 0), (Op::Le, 64, 216_880_790_466, 0, 12)]),
    (false, [(Op::Ge, 59, 89_551_972_381_464, 0, 12), (Op::Le, 13, 65_876_434_269, 0, 12)]),
    (true, [(Op::Le, 3, 44_672_212_756, 0, 12), (Op::Ge, 51, 1_867_688_078, 0, 12)]),
    (true, [(Op::Ge, 61, 92_030_000_000_006, 0, 12), (Op::Le, 65, -1_159_346_030_872, 0, 12)]),
    (true, [(Op::Le, 3, 81_073_940_507, 0, 12), (Op::Le, 65, -1_159_346_030_872, 0, 12)]),
    (true, [(Op::Le, 43, 12_370_381_786_246, 0, 12), (Op::Ge, 36, 638_203_582_875, 0, 12)]),
    (false, [(Op::Ge, 42, 88_952_653_717_272, 0, 12), (Op::Le, 45, 298_268_023_925, 0, 12)]),
    (false, [(Op::Ge, 59, 83_706_222_662_312, 0, 12), (Op::Le, 57, -2_782_739_943_152, 0, 12)]),
    (false, [(Op::Ge, 22, -643_444_193, 0, 12), (Op::Between, 37, 0, 3, 0)]),
    (false, [(Op::Ge, 19, 494_856_271, 0, 10), (Op::Eq, 37, 2, 0, 0)]),
    (true, [(Op::Le, 23, 1_538_919_285, 0, 12), (Op::Ge, 36, 555_858_847_899, 0, 12)]),
    (true, [(Op::Le, 56, 21_149_731_261_368, 0, 12), (Op::Le, 1, -376_852_964_393, 0, 12)]),
    (false, [(Op::Ge, 33, 4, 0, 0), (Op::Ge, 61, 50_208_999_999_976, 0, 12)]),
    (true, [
        (Op::Le, 50, -14_325_177_909, 0, 12),
        (Op::Between, 52, -2_369_659_403, 2_662_292_900, 12),
    ]),
    (true, [(Op::Le, 13, 25_827_454_359, 0, 12), (Op::Ge, 58, 83_212_445_361_432, 0, 12)]),
    (true, [(Op::Ge, 39, 99_803_555_555_201, 0, 12), (Op::Le, 51, -15_005_191_316, 0, 12)]),
    (true, [(Op::Ge, 49, 4, 0, 0), (Op::Ge, 67, 39_861_770_193, 0, 12)]),
    (true, [(Op::Le, 3, -286_381_306_679, 0, 12), (Op::Ge, 40, -433_596_303, 0, 12)]),
    (true, [(Op::Le, 43, 12_370_381_786_246, 0, 12), (Op::Ge, 40, -93_425_444, 0, 11)]),
    (true, [(Op::Le, 42, 5_127_057_896_226, 0, 12), (Op::Le, 1, -1_893_164_059_008, 0, 12)]),
    (false, [(Op::Ge, 43, 90_605_260_301_048, 0, 12), (Op::Ge, 46, 214_921_727_869, 0, 11)]),
    (false, [(Op::Ge, 42, 92_869_319_882_182, 0, 12), (Op::Eq, 37, 8, 0, 0)]),
    (true, [(Op::Le, 36, 336_010_955_575, 0, 12), (Op::Ge, 56, 67_911_991_596_762, 0, 12)]),
    (true, [(Op::Le, 11, -227_797_658_840_935, 0, 12), (Op::Eq, 37, 0, 0, 0)]),
    (true, [(Op::Le, 14, -1_343_857_006_248, 0, 12), (Op::Ge, 18, 12_838_900_259, 0, 12)]),
    (false, [(Op::Le, 48, 0, 0, 0), (Op::Le, 2, 1_924_913_661, 0, 12)]),
    (true, [
        (Op::Ge, 64, 486_378_068_509, 0, 11),
        (Op::Between, 14, -1_130_209_885_596, 1_148_339_337_785, 12),
    ]),
    (true, [(Op::Le, 59, 2_019_209_860_754, 0, 11), (Op::Le, 64, 216_880_790_466, 0, 12)]),
    (false, [(Op::Ge, 22, -1_841_392_139, 0, 12), (Op::Ge, 39, 3_219_116_515_314, 0, 12)]),
    (false, [(Op::Ge, 18, 54_731_271_045, 0, 12), (Op::Le, 10, -44_892_645_486, 0, 12)]),
    (true, [(Op::Le, 13, 886_273_409, 0, 12), (Op::Le, 65, -965_996_072_928, 0, 12)]),
    (true, [(Op::Le, 15, -2_404_114_354_323, 0, 12), (Op::Ge, 8, -5_516_138_794, 0, 12)]),
    (false, [(Op::Ge, 13, 981_752_292_899, 0, 12), (Op::Eq, 37, 12, 0, 0)]),
    (true, [(Op::Le, 24, 8_074_882_103, 0, 12), (Op::Ge, 26, 1, 0, 0)]),
    (true, [(Op::Le, 13, 8_177_319_388, 0, 12), (Op::Ge, 63, 21_404_310_273, 0, 12)]),
    (true, [(Op::Le, 58, 2_062_588_143_616, 0, 12), (Op::Eq, 68, 6, 0, 0)]),
    (true, [(Op::Le, 43, 1_530_340_668_771, 0, 11), (Op::Le, 35, 40_104_438_977, 0, 12)]),
    (true, [(Op::Le, 13, 120_614_853_726, 0, 12), (Op::Ge, 9, 70_114_758_373, 0, 12)]),
    (true, [(Op::Le, 3, -91_259_020_395, 0, 12), (Op::Ge, 8, -5_516_138_794, 0, 12)]),
    (false, [(Op::Ge, 13, 981_752_292_899, 0, 12), (Op::Ge, 66, 14_461_038_157, 0, 12)]),
    (false, [(Op::Ge, 19, 37_047_849_353, 0, 12), (Op::Eq, 37, 10, 0, 0)]),
    (false, [(Op::Ge, 59, 89_551_972_381_464, 0, 12), (Op::Le, 13, 17_007_379_085, 0, 11)]),
    (false, [(Op::Ge, 22, -3_294_721_515, 0, 12), (Op::Le, 62, 132_092_228, 0, 12)]),
    (true, [
        (Op::Ge, 39, 99_803_555_555_201, 0, 12),
        (Op::Between, 64, 697_599_259_542, 930_270_598_004, 12),
    ]),
    (false, [(Op::Ge, 58, 9_473_247_534_402, 0, 11), (Op::Le, 16, 562_623_940_981, 0, 12)]),
    (true, [(Op::Le, 58, 15_680_586_695_736, 0, 12), (Op::Ge, 34, 1_112_431_058, 0, 12)]),
    (true, [(Op::Le, 19, -49_413_631_372, 0, 12), (Op::Le, 1, -1_127_098_909_018, 0, 12)]),
    (true, [
        (Op::Le, 14, -1_605_810_138_122, 0, 12),
        (Op::Between, 11, -20_291_648_932_434, 24_041_740_853_877, 12),
    ]),
    (false, [(Op::Ge, 32, 5, 0, 0), (Op::Le, 65, -1_341_363_982_825, 0, 12)]),
    (false, [(Op::Ge, 59, 83_706_222_662_312, 0, 12), (Op::Ge, 0, 28_212_125_507_464, 0, 12)]),
    (true, [(Op::Le, 13, 219_060_225_017, 0, 12), (Op::Ge, 52, 65_040_574_296, 0, 12)]),
    (false, [(Op::Ge, 20, 98_883_002_663, 0, 12), (Op::Le, 62, 990_969_677, 0, 12)]),
    (false, [(Op::Le, 48, 0, 0, 0), (Op::Le, 65, -1_457_487_435_051, 0, 12)]),
    (true, [(Op::Le, 23, 5_311_716_219, 0, 12), (Op::Ge, 0, 28_212_125_507_464, 0, 12)]),
    (false, [(Op::Ge, 15, 1_834_921_291_675, 0, 12), (Op::Le, 41, -5_301_040_898, 0, 12)]),
    (true, [(Op::Le, 59, 2_417_455_072_988, 0, 12), (Op::Ge, 51, -9_145_355_373, 0, 12)]),
    (true, [(Op::Le, 52, -65_293_293_674, 0, 12), (Op::Le, 2, 14_794_336_648, 0, 12)]),
    (true, [(Op::Le, 42, 0, 0, 0), (Op::Le, 23, 1_007_431_938, 0, 12)]),
    (false, [(Op::Ge, 54, 78_115_236_912_005, 0, 12), (Op::Le, 23, 11_447_152_483, 0, 12)]),
    (false, [(Op::Ge, 54, 78_115_236_912_005, 0, 12), (Op::Le, 20, -4_935_772_745, 0, 12)]),
    (false, [(Op::Ge, 59, 94_755_383_566_354, 0, 12), (Op::Le, 57, -942_445_884_865, 0, 12)]),
    (true, [(Op::Le, 13, 25_827_454_359, 0, 12), (Op::Le, 62, 330_481_587, 0, 12)]),
    (true, [(Op::Le, 13, 886_273_409, 0, 12), (Op::Eq, 37, 12, 0, 0)]),
    (true, [(Op::Le, 19, -59_419_189_352, 0, 12), (Op::Eq, 37, 5, 0, 0)]),
    (true, [(Op::Le, 23, 1_538_919_285, 0, 12), (Op::Le, 0, -2_590_382_463_299, 0, 12)]),
    (true, [
        (Op::Ge, 5, 34_547_716_221, 0, 12),
        (Op::Between, 15, -408_127_730_548, 467_070_327_595, 12),
    ]),
    (false, [(Op::Ge, 58, 92_430_123_495_695, 0, 12), (Op::Le, 63, 2_075_087_929, 0, 12)]),
    (false, [(Op::Ge, 3, 951_946_482_376, 0, 12), (Op::Le, 66, -15_005_818_998, 0, 12)]),
    (false, [(Op::Ge, 22, -5_068_052_866, 0, 12), (Op::Le, 66, -10_067_309_537, 0, 12)]),
    (true, [(Op::Ge, 69, 5, 0, 0), (Op::Ge, 11, 73_371_261_360_937, 0, 12)]),
    (false, [(Op::Ge, 7, 44_598_294_078, 0, 12), (Op::Le, 2, 10_328_064_626, 0, 12)]),
    (false, [(Op::Ge, 18, 54_731_271_045, 0, 12), (Op::Eq, 37, 6, 0, 0)]),
    (false, [(Op::Ge, 59, 92_499_098_560_538, 0, 12), (Op::Le, 43, 3_931_642_972_534, 0, 11)]),
    (true, [(Op::Le, 13, 120_614_853_726, 0, 12), (Op::Ge, 57, 1_850_542_798_185, 0, 12)]),
    (false, [(Op::Ge, 42, 92_869_319_882_182, 0, 12), (Op::Ge, 30, 10, 0, 0)]),
    (true, [(Op::Le, 58, 1_357_158_226_389, 0, 11), (Op::Le, 62, 34_905_632, 0, 12)]),
    (false, [(Op::Ge, 42, 90_971_006_267_369, 0, 12), (Op::Le, 65, -122_650_223_573, 0, 11)]),
    (false, [(Op::Ge, 13, 981_752_292_899, 0, 12), (Op::Ge, 11, 2_623_666_355_551, 0, 10)]),
    (false, [(Op::Ge, 13, 981_752_292_899, 0, 12), (Op::Le, 42, 8_017_659_971_847, 0, 12)]),
    (false, [(Op::Ge, 3, 951_946_482_376, 0, 12), (Op::Le, 46, -1_418_396_616_757, 0, 12)]),
    (false, [(Op::Ge, 19, 37_047_849_353, 0, 12), (Op::Le, 17, -4_060_754_253, 0, 12)]),
    (true, [(Op::Ge, 49, 6, 0, 0), (Op::Ge, 1, 6_159_740_467_929, 0, 12)]),
    (false, [(Op::Ge, 22, -5_068_052_866, 0, 12), (Op::Ge, 28, 1, 0, 0)]),
    (true, [(Op::Le, 3, 149_794_157_738, 0, 12), (Op::Ge, 13, 999_698_623_782, 0, 12)]),
    (true, [(Op::Le, 59, 2_019_209_860_754, 0, 11), (Op::Le, 46, -1_513_028_289_708, 0, 12)]),
    (false, [(Op::Ge, 59, 83_706_222_662_312, 0, 12), (Op::Le, 51, -12_881_693_805, 0, 12)]),
    (true, [(Op::Le, 13, 219_060_225_017, 0, 12), (Op::Ge, 3, 1_141_318_737_455, 0, 12)]),
    (false, [(Op::Ge, 42, 90_971_006_267_369, 0, 12), (Op::Ge, 60, 10_478_551_636, 0, 12)]),
    (true, [(Op::Le, 24, 6_290_713_995, 0, 12), (Op::Le, 10, -60_399_701_237, 0, 11)]),
    (true, [(Op::Le, 4, -5_185_093_586, 0, 12), (Op::Ge, 11, 178_260_877_568_223, 0, 12)]),
    (true, [(Op::Le, 50, -11_045_001_747, 0, 12), (Op::Ge, 56, 67_911_991_596_762, 0, 12)]),
    (true, [(Op::Le, 24, 8_074_882_103, 0, 12), (Op::Le, 10, -60_399_701_237, 0, 11)]),
    (true, [(Op::Le, 21, -103_167_040_398, 0, 12), (Op::Le, 60, 972_276_508, 0, 12)]),
    (true, [(Op::Le, 23, 194_583_421, 0, 11), (Op::Ge, 13, 804_606_830_818, 0, 12)]),
    (false, [(Op::Ge, 58, 89_433_032_932_232, 0, 12), (Op::Ge, 1, 6_159_740_467_929, 0, 12)]),
    (true, [(Op::Le, 13, 17_007_379_085, 0, 11), (Op::Ge, 38, 6_878_572_146, 0, 12)]),
    (true, [(Op::Le, 13, 886_273_409, 0, 12), (Op::Le, 40, -1_638_248_858, 0, 12)]),
    (false, [(Op::Ge, 13, 981_752_292_899, 0, 12), (Op::Le, 29, 1, 0, 0)]),
    (false, [(Op::Ge, 20, 98_883_002_663, 0, 12), (Op::Ge, 35, 712_962_554_434, 0, 12)]),
    (false, [(Op::Ge, 20, 87_923_069_654, 0, 12), (Op::Ge, 46, 214_921_727_869, 0, 11)]),
    (true, [(Op::Le, 43, 1_530_340_668_771, 0, 11), (Op::Le, 35, 63_903_626_236, 0, 12)]),
    (false, [(Op::Le, 48, 0, 0, 0), (Op::Le, 62, 34_905_632, 0, 12)]),
    (false, [(Op::Ge, 21, -2_909_696_646, 0, 12), (Op::Le, 42, 25_185_728_924_508, 0, 12)]),
    (false, [(Op::Ge, 33, 5, 0, 0), (Op::Le, 65, -1_159_346_030_872, 0, 12)]),
    (false, [(Op::Ge, 3, 102_132_756_984, 0, 11), (Op::Le, 16, 44_182_204_197, 0, 11)]),
    (false, [(Op::Ge, 24, 154_339_127_652, 0, 12), (Op::Le, 40, -1_638_248_858, 0, 12)]),
    (true, [(Op::Le, 32, 1, 0, 0), (Op::Ge, 12, 11_253_717_582_858, 0, 11)]),
    (false, [(Op::Ge, 59, 83_706_222_662_312, 0, 12), (Op::Ge, 49, 4, 0, 0)]),
    (true, [(Op::Le, 23, 2_650_174_002, 0, 12), (Op::Ge, 16, 1_593_071_747_057, 0, 12)]),
    (true, [(Op::Le, 23, 194_583_421, 0, 11), (Op::Le, 10, -286_078_754_321, 0, 12)]),
    (false, [(Op::Ge, 21, -1_155_514_485, 0, 12), (Op::Le, 23, 4_099_778_821, 0, 12)]),
    (false, [(Op::Ge, 32, 5, 0, 0), (Op::Le, 18, -26_259_092_371, 0, 12)]),
    (false, [(Op::Ge, 19, 37_047_849_353, 0, 12), (Op::Le, 61, 18_666_518_665, 0, 12)]),
    (false, [(Op::Ge, 32, 5, 0, 0), (Op::Le, 65, -1_159_346_030_872, 0, 12)]),
    (false, [(Op::Ge, 55, 82_454_573_967_079, 0, 12), (Op::Eq, 37, 12, 0, 0)]),
    (true, [(Op::Le, 13, 8_177_319_388, 0, 12), (Op::Ge, 32, 5, 0, 0)]),
    (false, [(Op::Le, 69, 0, 0, 0), (Op::Eq, 37, 0, 0, 0)]),
    (true, [(Op::Le, 23, 1_538_919_285, 0, 12), (Op::Ge, 11, -20_291_648_932_434, 0, 12)]),
    (false, [(Op::Le, 69, 1, 0, 0), (Op::Le, 42, 20_342_848_323_295, 0, 12)]),
    (true, [(Op::Le, 50, -14_325_177_909, 0, 12), (Op::Le, 10, -60_399_701_237, 0, 11)]),
    (true, [(Op::Le, 14, -1_343_857_006_248, 0, 12), (Op::Ge, 55, 54_346_520_261_538, 0, 12)]),
    (true, [(Op::Le, 58, 25_103_448_275_861, 0, 12), (Op::Ge, 53, 8_885_057_326, 0, 12)]),
    (false, [(Op::Ge, 54, 8_721_365_662_096, 0, 11), (Op::Eq, 37, 19, 0, 0)]),
    (true, [(Op::Le, 13, 886_273_409, 0, 12), (Op::Ge, 42, 81_594_378_791_001, 0, 12)]),
    (false, [(Op::Ge, 56, 81_688_139_538_765, 0, 12), (Op::Ge, 65, 3_746_261_866_779, 0, 12)]),
    (true, [(Op::Le, 59, 13_599_250_472_473, 0, 12), (Op::Ge, 34, 2_306_019_819, 0, 12)]),
    (false, [(Op::Ge, 13, 981_752_292_899, 0, 12), (Op::Le, 42, 1_043_007_987_269, 0, 11)]),
    (true, [(Op::Le, 32, 1, 0, 0), (Op::Ge, 30, 9, 0, 0)]),
    (false, [(Op::Ge, 54, 8_721_365_662_096, 0, 11), (Op::Eq, 68, 6, 0, 0)]),
    (false, [(Op::Ge, 58, 9_473_247_534_402, 0, 11), (Op::Le, 2, 31_654_888, 0, 10)]),
    (false, [(Op::Ge, 55, 82_454_573_967_079, 0, 12), (Op::Eq, 37, 19, 0, 0)]),
    (true, [(Op::Le, 23, 5_311_716_219, 0, 12), (Op::Le, 10, -60_399_701_237, 0, 11)]),
    (false, [
        (Op::Ge, 42, 92_869_319_882_182, 0, 12),
        (Op::Between, 22, -22_597_196_786, -14_066_516_312, 12),
    ]),
    (true, [(Op::Le, 15, -260_338_060_349, 0, 11), (Op::Eq, 37, 8, 0, 0)]),
    (true, [(Op::Ge, 61, 92_030_000_000_006, 0, 12), (Op::Ge, 17, 14_620_999_612, 0, 12)]),
    (true, [(Op::Le, 50, -8_323_342_559, 0, 12), (Op::Ge, 12, 178_957_313_232_822, 0, 12)]),
    (true, [(Op::Le, 50, -14_325_177_909, 0, 12), (Op::Ge, 58, 7_074_716_204_227, 0, 11)]),
    (false, [(Op::Ge, 21, -2_137_372_529, 0, 12), (Op::Le, 18, -660_351_419, 0, 11)]),
    (false, [(Op::Ge, 42, 90_971_006_267_369, 0, 12), (Op::Le, 36, 365_308_166_414, 0, 12)]),
    (true, [(Op::Le, 50, -14_325_177_909, 0, 12), (Op::Ge, 60, 16_082_751_957, 0, 12)]),
    (false, [(Op::Ge, 22, -5_068_052_866, 0, 12), (Op::Ge, 69, 5, 0, 0)]),
    (false, [(Op::Ge, 15, 1_834_921_291_675, 0, 12), (Op::Le, 46, -1_302_770_069_233, 0, 12)]),
    (false, [(Op::Ge, 54, 78_115_236_912_005, 0, 12), (Op::Le, 12, 47_198_310_116_171, 0, 12)]),
    (false, [(Op::Ge, 21, -399_711_895, 0, 12), (Op::Le, 43, 44_701_987_979_408, 0, 12)]),
    (false, [(Op::Ge, 21, -1_155_514_485, 0, 12), (Op::Ge, 1, 416_367_086_866, 0, 12)]),
    (false, [(Op::Ge, 54, 84_181_207_583_347, 0, 12), (Op::Le, 13, 17_007_379_085, 0, 11)]),
    (true, [(Op::Le, 36, 336_010_955_575, 0, 12), (Op::Le, 64, 247_637_271_351, 0, 12)]),
    (true, [(Op::Le, 50, -8_323_342_559, 0, 12), (Op::Ge, 23, 78_922_113_522, 0, 12)]),
    (true, [(Op::Ge, 65, 4_082_365_664_208, 0, 12), (Op::Ge, 24, 64_133_440_082, 0, 12)]),
    (true, [(Op::Le, 13, 25_827_454_359, 0, 12), (Op::Le, 6, 92_564_520_481, 0, 12)]),
    (true, [(Op::Ge, 65, 4_082_365_664_208, 0, 12), (Op::Eq, 68, 5, 0, 0)]),
    (true, [(Op::Le, 43, 1_530_340_668_771, 0, 11), (Op::Ge, 1, 25_855_242_512_076, 0, 12)]),
    (false, [(Op::Ge, 21, -399_711_895, 0, 12), (Op::Ge, 70, 666_666_666_667, 0, 12)]),
    (true, [(Op::Le, 24, 6_290_713_995, 0, 12), (Op::Ge, 43, 66_675_796_827_867, 0, 12)]),
    (true, [(Op::Le, 14, -1_130_209_885_596, 0, 12), (Op::Ge, 12, 47_198_310_116_171, 0, 12)]),
    (true, [(Op::Ge, 64, 486_378_068_509, 0, 11), (Op::Ge, 20, 40_068_069_939, 0, 12)]),
    (true, [(Op::Le, 13, 39_485_687_121, 0, 12), (Op::Le, 62, 330_481_587, 0, 12)]),
    (false, [(Op::Ge, 14, 1_594_894_995_073, 0, 12), (Op::Le, 54, 54_691_946_764_945, 0, 12)]),
    (true, [(Op::Ge, 49, 4, 0, 0), (Op::Ge, 40, 5_797_178_045, 0, 12)]),
    (true, [
        (Op::Ge, 65, 4_082_365_664_208, 0, 12),
        (Op::Between, 43, 44_701_987_979_408, 55_226_633_333_302, 12),
    ]),
    (true, [(Op::Le, 58, 10_023_452_950_725, 0, 12), (Op::Le, 0, -7_332_863_959_192, 0, 12)]),
    (true, [(Op::Le, 13, 120_614_853_726, 0, 12), (Op::Ge, 11, 23_214_555_986_203, 0, 11)]),
    (false, [(Op::Ge, 58, 89_433_032_932_232, 0, 12), (Op::Le, 20, -50_503_677_536, 0, 12)]),
    (true, [(Op::Le, 58, 20_541_344_875_787, 0, 12), (Op::Ge, 36, 682_113_836_631, 0, 12)]),
    (false, [(Op::Ge, 13, 981_752_292_899, 0, 12), (Op::Ge, 16, 1_995_743_208_991, 0, 12)]),
    (false, [(Op::Ge, 32, 5, 0, 0), (Op::Le, 58, 20_541_344_875_787, 0, 12)]),
    (false, [(Op::Ge, 59, 89_551_972_381_464, 0, 12), (Op::Le, 57, -1_939_490_804_131, 0, 12)]),
    (false, [(Op::Ge, 59, 83_706_222_662_312, 0, 12), (Op::Le, 16, 400_893_813_069, 0, 12)]),
];

/// Rules on hourly ETH candles, drawn from five years of them.
#[derive(Debug)]
pub struct FiveYear70PctEthH1Rules632 {
    pub ensemble: Ensemble,
}

impl FiveYear70PctEthH1Rules632 {
    pub fn new(min_votes: u32) -> (r: FiveYear70PctEthH1Rules632)
        ensures
            r.well_formed(),
            r.ensemble.is_fresh(min_votes),
    {
        FiveYear70PctEthH1Rules632 { ensemble: Ensemble::new(min_votes) }
    }
}

impl Strategy for FiveYear70PctEthH1Rules632 {
    open spec fn well_formed(&self) -> bool {
        self.ensemble.well_formed()
    }

    open spec fn title(&self) -> Seq<char> {
        STRATEGY_NAME@
    }

    open spec fn answers(
        &self,
        first: Seq<Candle>,
        candle: Candle,
        signal: Option<Signal>,
    ) -> bool {
        strategy::signals(
            signal,
            self.ensemble.call_after(first, candle, FEATURES@, RULES@),
            candle.close_time_ms,
            STRATEGY_NAME@,
        )
    }

    open spec fn reads_snapshots(&self) -> bool {
        false
    }

    open spec fn answers_snapshot(
        &self,
        snapshot: MicrostructureSnapshot,
        signal: Option<Signal>,
    ) -> bool {
        signal is None
    }

    open spec fn has_considered(&self, snapshot: MicrostructureSnapshot) -> bool {
        true
    }

    open spec fn summary_is(&self, summary: Option<MicrostructureDecisionSummary>) -> bool {
        summary is None
    }

    open spec fn shown_rsi(&self) -> Option<Binary64> {
        self.ensemble.meters.rsi7.get()
    }

    open spec fn shown_series(&self) -> Option<bool> {
        candle::same_color_streak_of(self.ensemble.window@, 3)
    }

    open spec fn shown_atr(&self) -> Option<Binary64> {
        self.ensemble.meters.atr14.atr
    }

    open spec fn shown_extras(&self) -> Seq<char> {
        ensemble::votes_text(self.ensemble.last_votes, self.ensemble.min_votes)
    }

    fn name(&self) -> (r: &str) {
        STRATEGY_NAME
    }

    fn on_closed_candle(&mut self, candle: &Candle) -> (r: Option<Signal>)
        ensures
            final(self).ensemble.has_seen(old(self).ensemble, *candle),
            ensemble::decided(final(self).ensemble, *candle, FEATURES@, RULES@),
            strategy::signals(
                r,
                ensemble::call_of(final(self).ensemble.last_votes, old(self).ensemble.min_votes),
                candle.close_time_ms,
                STRATEGY_NAME@,
            ),
    {
        let call: Option<Call> = self.ensemble.decide(candle, &FEATURES, &RULES);
        proof {
            assert forall|first: Seq<Candle>, c: Candle, s: Option<Signal>| #[trigger]
                self.answers(first, c, s) == old(self).answers(seq![*candle] + first, c, s) by {
                ensemble::lemma_later(
                    old(self).ensemble,
                    self.ensemble,
                    *candle,
                    first,
                    c,
                    FEATURES@,
                    RULES@,
                );
            }
        }
        strategy::signal_for(call, candle.close_time_ms, STRATEGY_NAME)
    }

    fn warmup(&mut self, candle: &Candle)
        ensures
            final(self).ensemble.has_seen(old(self).ensemble, *candle),
            final(self).ensemble.last_votes == old(self).ensemble.last_votes,
    {
        self.ensemble.feed(candle);
        proof {
            assert forall|first: Seq<Candle>, c: Candle, s: Option<Signal>| #[trigger]
                self.answers(first, c, s) == old(self).answers(seq![*candle] + first, c, s) by {
                ensemble::lemma_later(
                    old(self).ensemble,
                    self.ensemble,
                    *candle,
                    first,
                    c,
                    FEATURES@,
                    RULES@,
                );
            }
        }
    }

    fn requires_microstructure(&self) -> (r: bool) {
        false
    }

    fn on_microstructure_snapshot(&mut self, snapshot: &MicrostructureSnapshot) -> (r: Option<
        Signal,
    >) {
        None
    }

    fn last_microstructure_decision_summary(&self) -> (r: Option<
        MicrostructureDecisionSummary,
    >) {
        None
    }

    fn current_rsi(&self) -> (r: Option<Binary64>) {
        self.ensemble.meters.rsi7.get()
    }

    fn current_series(&self) -> (r: Option<bool>) {
        candle::same_color_streak(&self.ensemble.window, 3)
    }

    fn current_atr(&self) -> (r: Option<Binary64>) {
        self.ensemble.meters.atr14.raw()
    }

    fn candle_log_extras(&self) -> (r: String) {
        ensemble::describe_votes(self.ensemble.last_votes, self.ensemble.min_votes)
    }
}

} // verus!
