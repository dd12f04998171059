//! Rules on hourly BTC candles, drawn from five years of them.

use vstd::prelude::*;
use crate::binary64::Binary64;
use crate::candle;
use crate::candle::Candle;
use crate::ensemble;
use crate::ensemble::{Cond, Ensemble, Op};
use crate::features::Feature;
use crate::microstructure::MicrostructureSnapshot;
use crate::strategy;
use crate::strategy::{Call, MicrostructureDecisionSummary, Signal, Strategy};

verus! {

/// The name of the strategy.
pub const STRATEGY_NAME: &'static str = "five_year_70pct_btc_1h_rules_586_min_votes_1";

/// The features that the conditions number.
pub const FEATURES: [Feature; 69] = [
    Feature::AbsorptionDown, Feature::AbsorptionUp, Feature::Atr14Pct, Feature::BbPctb,
    Feature::Body, Feature::BodyAbsPct, Feature::BodyRatio, Feature::BodySum3, Feature::BodySum6,
    Feature::BodySum12, Feature::BreakoutEnergy, Feature::Cci12, Feature::Cci24,
    Feature::ClosePosition, Feature::CloseZ12, Feature::CloseZ24, Feature::Compression12To72,
    Feature::DistSma12, Feature::DistSma24, Feature::DistVwap24, Feature::DistVwap72,
    Feature::DonchHigh12, Feature::DonchHigh24, Feature::DonchLow12, Feature::DonchLow24,
    Feature::FailedHigh12, Feature::FailedHigh24, Feature::FailedLow12, Feature::FailedLow24,
    Feature::FlipCount6, Feature::FlipCount12, Feature::GreenCount3, Feature::GreenCount6,
    Feature::GreenStreak, Feature::HaBody, Feature::HaBodyRatio, Feature::HaClosePosition,
    Feature::Hour, Feature::LowerWick, Feature::LowerWickBody, Feature::MacdHistPct,
    Feature::MacdPct, Feature::Mfi8, Feature::Mfi14, Feature::MinuteOfDay, Feature::RangeAtr14,
    Feature::RangePctZ24, Feature::ReclaimMid12, Feature::RedCount3, Feature::RedStreak,
    Feature::Ret1, Feature::Ret3, Feature::Ret6, Feature::Ret12, Feature::Rsi7, Feature::Rsi8,
    Feature::Rsi14, Feature::SignedVolumeRatio20, Feature::StochK12, Feature::StochK24,
    Feature::UpperWick, Feature::UpperWickBody, Feature::VolumeBodyEfficiency,
    Feature::VolumeRangeEfficiency, Feature::VolumeRatio20, Feature::VolumeZ24,
    Feature::VwapSlope24, Feature::VwapSlope72, Feature::Weekday,
];

/// The rules: a color, green where true, and the conditions on which it is voted for.
pub const RULES: [(bool, [Cond; 2]); 586] = [
    (true, [(Op::Le, 24, 960_780_049, 0, 12), (Op::Le, 54, 10_880_992_792_283, 0, 12)]),
    (true, [(Op::Le, 24, 960_780_049, 0, 12), (Op::Le, 40, -540_043_628, 0, 11)]),
    (true, [(Op::Le, 13, 30_383_565_182, 0, 12), (Op::Le, 46, -1_536_658_910_705, 0, 12)]),
    (true, [(Op::Le, 50, -3_848_934_884, 0, 12), (Op::Ge, 12, 293_229_864_434_571, 0, 12)]),
    (true, [(Op::Le, 36, 405_699_915_549, 0, 12), (Op::Ge, 5, 27_039_498_754, 0, 12)]),
    (true, [(Op::Le, 15, -1_836_158_938_595, 0, 12), (Op::Ge, 56, 47_524_239_591_808, 0, 12)]),
    (false, [(Op::Ge, 7, 2_269_168_662, 0, 11), (Op::Le, 43, 26_672_446_581_558, 0, 12)]),
    (true, [(Op::Le, 36, 218_185_817_798, 0, 12), (Op::Ge, 63, 12_990_335_975, 0, 12)]),
    (true, [(Op::Le, 24, 960_780_049, 0, 12), (Op::Ge, 67, 15_962_036_922, 0, 12)]),
    (true, [(Op::Le, 13, 30_383_565_182, 0, 12), (Op::Ge, 40, 5_581_053_296, 0, 12)]),
    (true, [(Op::Le, 23, 544_949_204, 0, 12), (Op::Ge, 20, 18_572_337_802, 0, 12)]),
    (false, [(Op::Ge, 59, 960_335_550_175, 0, 10), (Op::Le, 20, -8_468_540_427, 0, 12)]),
    (true, [(Op::Le, 32, 0, 0, 0), (Op::Le, 63, 198_697_707, 0, 11)]),
    (false, [(Op::Ge, 22, -727_402_067, 0, 12), (Op::Le, 10, -479_441_712_554, 0, 12)]),
    (true, [(Op::Le, 36, 282_482_101_409, 0, 12), (Op::Ge, 62, 8_999_088_235, 0, 12)]),
    (true, [(Op::Le, 54, 2_287_928_198_245, 0, 11), (Op::Ge, 29, 6, 0, 0)]),
    (true, [(Op::Le, 43, 10_339_569_656_362, 0, 12), (Op::Le, 38, 468_970_418, 0, 12)]),
    (true, [(Op::Le, 32, 1, 0, 0), (Op::Le, 2, 1_367_718_303, 0, 12)]),
    (true, [(Op::Le, 51, -5_049_606_963, 0, 12), (Op::Ge, 18, 55_600_520_317, 0, 12)]),
    (false, [(Op::Ge, 55, 85_785_356_550_293, 0, 12), (Op::Ge, 29, 5, 0, 0)]),
    (false, [(Op::Ge, 22, -394_386_125, 0, 12), (Op::Le, 46, -781_972_702_142, 0, 12)]),
    (true, [(Op::Le, 59, 5_251_600_440_171, 0, 12), (Op::Ge, 58, 12_958_361_968_728, 0, 12)]),
    (true, [(Op::Le, 13, 30_383_565_182, 0, 12), (Op::Ge, 11, 199_552_574_965_572, 0, 12)]),
    (true, [(Op::Le, 13, 56_247_011_082, 0, 12), (Op::Ge, 27, 1, 0, 0)]),
    (false, [(Op::Ge, 59, 97_799_245_309_998, 0, 12), (Op::Le, 46, -979_734_943_474, 0, 12)]),
    (true, [(Op::Le, 24, 547_061_338, 0, 12), (Op::Eq, 37, 6, 0, 0)]),
    (false, [(Op::Ge, 58, 963_831_114_696, 0, 10), (Op::Le, 21, -2_433_279_017, 0, 12)]),
    (true, [(Op::Le, 51, -14_926_060_763, 0, 12), (Op::Le, 45, 41_501_807_801, 0, 11)]),
    (true, [(Op::Le, 12, -296_373_970_792_508, 0, 12), (Op::Eq, 37, 22, 0, 0)]),
    (true, [(Op::Le, 36, 378_420_082_698, 0, 12), (Op::Ge, 66, 25_174_710_705, 0, 12)]),
    (false, [(Op::Ge, 22, -1_665_889_857, 0, 12), (Op::Le, 36, 405_699_915_549, 0, 12)]),
    (true, [(Op::Le, 46, -1_536_658_910_705, 0, 12), (Op::Le, 19, -8_372_624_821, 0, 12)]),
    (true, [(Op::Le, 55, 12_502_131_887_069, 0, 12), (Op::Ge, 17, -16_588_506_863, 0, 12)]),
    (true, [(Op::Le, 36, 218_185_817_798, 0, 12), (Op::Le, 64, 485_298_641_061, 0, 12)]),
    (true, [(Op::Le, 58, 2_667_588_714_436, 0, 12), (Op::Eq, 37, 20, 0, 0)]),
    (false, [(Op::Ge, 21, -1_486_921_254, 0, 12), (Op::Ge, 20, 69_654_406_809, 0, 12)]),
    (false, [(Op::Ge, 22, -394_386_125, 0, 12), (Op::Le, 45, 663_177_938_908, 0, 12)]),
    (true, [(Op::Le, 46, -1_536_658_910_705, 0, 12), (Op::Le, 53, -10_982_608_219, 0, 12)]),
    (false, [(Op::Ge, 22, -121_384_214, 0, 11), (Op::Le, 10, -479_441_712_554, 0, 12)]),
    (true, [(Op::Le, 59, 1_724_176_425_078, 0, 12), (Op::Ge, 67, 10_852_199_486, 0, 12)]),
    (true, [(Op::Le, 13, 56_247_011_082, 0, 12), (Op::Le, 46, -1_536_658_910_705, 0, 12)]),
    (true, [(Op::Ge, 49, 4, 0, 0), (Op::Le, 16, 379_321_903_939, 0, 12)]),
    (true, [(Op::Le, 42, 5_829_683_244_288, 0, 12), (Op::Ge, 43, 44_954_532_800_507, 0, 12)]),
    (false, [(Op::Ge, 42, 92_538_838_851_052, 0, 12), (Op::Le, 1, -2_392_471_671_249, 0, 12)]),
    (false, [(Op::Ge, 36, 80_253_046_606, 0, 11), (Op::Ge, 0, 7_069_171_215_076, 0, 12)]),
    (true, [(Op::Le, 14, -2_353_463_333_651, 0, 12), (Op::Ge, 29, 6, 0, 0)]),
    (true, [(Op::Le, 36, 218_185_817_798, 0, 12), (Op::Eq, 37, 2, 0, 0)]),
    (false, [(Op::Ge, 21, -193_374_386, 0, 12), (Op::Le, 64, 427_551_130_261, 0, 12)]),
    (true, [(Op::Le, 24, 547_061_338, 0, 12), (Op::Eq, 68, 5, 0, 0)]),
    (true, [(Op::Le, 13, 110_521_327_309, 0, 12), (Op::Ge, 28, 1, 0, 0)]),
    (false, [(Op::Ge, 59, 89_373_499_384_241, 0, 12), (Op::Le, 12, 24_604_797_846_729, 0, 12)]),
    (false, [(Op::Ge, 59, 89_373_499_384_241, 0, 12), (Op::Le, 41, -5_247_823_951, 0, 12)]),
    (true, [(Op::Le, 54, 13_443_623_461_596, 0, 12), (Op::Le, 16, 712_660_732_397, 0, 12)]),
    (false, [(Op::Ge, 42, 9_021_492_658_429, 0, 11), (Op::Le, 10, -479_441_712_554, 0, 12)]),
    (true, [(Op::Le, 36, 218_185_817_798, 0, 12), (Op::Le, 41, -15_508_648_028, 0, 12)]),
    (true, [(Op::Le, 23, 544_949_204, 0, 12), (Op::Le, 42, 0, 0, 0)]),
    (false, [(Op::Ge, 59, 97_799_245_309_998, 0, 12), (Op::Ge, 20, 79_980_230_055, 0, 12)]),
    (true, [(Op::Le, 54, 10_880_992_792_283, 0, 12), (Op::Ge, 40, -1_560_612_463, 0, 12)]),
    (false, [(Op::Ge, 36, 80_253_046_606, 0, 11), (Op::Ge, 61, 15_903_107_859_896, 0, 12)]),
    (true, [(Op::Le, 24, 547_061_338, 0, 12), (Op::Le, 43, 16_087_074_533_329, 0, 12)]),
    (false, [(Op::Ge, 59, 92_398_919_564_528, 0, 12), (Op::Ge, 62, 21_833_334_011, 0, 12)]),
    (true, [(Op::Ge, 49, 4, 0, 0), (Op::Le, 2, 1_367_718_303, 0, 12)]),
    (false, [(Op::Ge, 58, 95_010_861_843_374, 0, 12), (Op::Le, 43, 30_621_116_950_057, 0, 12)]),
    (true, [(Op::Le, 54, 19_291_134_799_525, 0, 12), (Op::Ge, 52, -3_871_656_787, 0, 12)]),
    (false, [(Op::Ge, 43, 87_326_571_431_094, 0, 12), (Op::Eq, 37, 6, 0, 0)]),
    (true, [
        (Op::Le, 36, 218_185_817_798, 0, 12),
        (Op::Between, 57, -530_538_416_865, 540_841_360_867, 12),
    ]),
    (true, [(Op::Le, 36, 218_185_817_798, 0, 12), (Op::Le, 16, 712_660_732_397, 0, 12)]),
    (true, [(Op::Le, 24, 960_780_049, 0, 12), (Op::Ge, 56, 44_439_233_481_289, 0, 12)]),
    (true, [(Op::Le, 23, 544_949_204, 0, 12), (Op::Eq, 37, 20, 0, 0)]),
    (true, [(Op::Le, 23, 905_802_239, 0, 12), (Op::Ge, 63, 21_513_684_939, 0, 12)]),
    (false, [(Op::Ge, 59, 960_335_550_175, 0, 10), (Op::Le, 11, 24_061_550_080_429, 0, 12)]),
    (true, [(Op::Le, 59, 1_724_176_425_078, 0, 12), (Op::Eq, 37, 11, 0, 0)]),
    (false, [(Op::Ge, 36, 80_253_046_606, 0, 11), (Op::Eq, 37, 19, 0, 0)]),
    (true, [(Op::Le, 32, 0, 0, 0), (Op::Le, 2, 260_692_919, 0, 11)]),
    (false, [(Op::Ge, 59, 92_398_919_564_528, 0, 12), (Op::Le, 56, 53_275_547_235_097, 0, 12)]),
    (true, [(Op::Le, 36, 246_542_685_688, 0, 12), (Op::Le, 10, -672_155_355_901, 0, 12)]),
    (true, [(Op::Le, 36, 307_122_278_049, 0, 12), (Op::Le, 46, -1_536_658_910_705, 0, 12)]),
    (true, [(Op::Le, 23, 298_754_317, 0, 12), (Op::Le, 34, -18_308_813_609, 0, 12)]),
    (true, [(Op::Le, 23, 2_878_374_423, 0, 12), (Op::Ge, 67, 32_872_077_208, 0, 12)]),
    (true, [(Op::Le, 36, 335_678_247_138, 0, 12), (Op::Ge, 65, 4_071_608_244_105, 0, 12)]),
    (true, [(Op::Le, 50, -3_848_934_884, 0, 12), (Op::Ge, 15, 2_418_422_530_824, 0, 12)]),
    (false, [(Op::Ge, 21, -1_486_921_254, 0, 12), (Op::Ge, 19, 50_318_074_037, 0, 12)]),
    (false, [(Op::Ge, 43, 87_326_571_431_094, 0, 12), (Op::Eq, 37, 8, 0, 0)]),
    (false, [(Op::Ge, 42, 92_538_838_851_052, 0, 12), (Op::Eq, 37, 5, 0, 0)]),
    (false, [(Op::Ge, 42, 92_538_838_851_052, 0, 12), (Op::Ge, 39, 16_649_945_784_544, 0, 12)]),
    (false, [(Op::Ge, 42, 92_538_838_851_052, 0, 12), (Op::Le, 67, -18_783_731_743, 0, 12)]),
    (true, [(Op::Le, 46, -1_536_658_910_705, 0, 12), (Op::Le, 64, 226_931_525_872, 0, 12)]),
    (true, [(Op::Le, 56, 19_168_638_833_873, 0, 12), (Op::Eq, 37, 2, 0, 0)]),
    (false, [(Op::Ge, 56, 82_623_793_495_996, 0, 12), (Op::Le, 0, -1_167_889_331_231, 0, 12)]),
    (false, [(Op::Ge, 14, 1_962_352_079_221, 0, 12), (Op::Le, 2, 1_367_718_303, 0, 12)]),
    (false, [(Op::Ge, 59, 960_335_550_175, 0, 10), (Op::Le, 65, -845_591_632_774, 0, 12)]),
    (true, [(Op::Le, 58, 15_251_559_689_203, 0, 12), (Op::Ge, 20, 41_237_689_058, 0, 12)]),
    (false, [(Op::Ge, 59, 97_799_245_309_998, 0, 12), (Op::Ge, 19, 50_318_074_037, 0, 12)]),
    (true, [(Op::Le, 36, 218_185_817_798, 0, 12), (Op::Le, 1, -6_984_363_537_212, 0, 12)]),
    (true, [(Op::Le, 58, 2_667_588_714_436, 0, 12), (Op::Le, 2, 2_253_984_365, 0, 12)]),
    (false, [(Op::Ge, 21, -193_374_386, 0, 12), (Op::Ge, 64, 3_216_266_332_393, 0, 12)]),
    (false, [(Op::Ge, 21, -193_374_386, 0, 12), (Op::Le, 35, 238_970_973_439, 0, 12)]),
    (false, [
        (Op::Ge, 43, 8_980_044_543_946, 0, 11),
        (Op::Between, 23, 8_375_974_151, 13_233_652_106, 12),
    ]),
    (true, [(Op::Le, 59, 13_103_119_286_977, 0, 12), (Op::Le, 1, -42_545_668_662_262, 0, 12)]),
    (false, [(Op::Ge, 33, 6, 0, 0), (Op::Le, 22, -29_226_430_803, 0, 12)]),
    (false, [(Op::Ge, 33, 6, 0, 0), (Op::Le, 58, 61_254_716_857_094, 0, 12)]),
    (false, [(Op::Ge, 33, 6, 0, 0), (Op::Le, 46, -112_961_546_566, 0, 11)]),
    (true, [(Op::Le, 58, 15_251_559_689_203, 0, 12), (Op::Ge, 52, 1_941_450_114, 0, 12)]),
    (true, [(Op::Le, 58, 15_251_559_689_203, 0, 12), (Op::Le, 1, -42_545_668_662_262, 0, 12)]),
    (true, [(Op::Le, 4, -6_258_679_323, 0, 12), (Op::Ge, 42, 94_143_448_336_176, 0, 12)]),
    (false, [(Op::Ge, 21, -409_020_996, 0, 12), (Op::Le, 35, 159_137_292_685, 0, 12)]),
    (true, [(Op::Le, 13, 186_502_931, 0, 12), (Op::Ge, 34, 5_473_009_889, 0, 12)]),
    (false, [(Op::Ge, 58, 963_831_114_696, 0, 10), (Op::Le, 10, -672_155_355_901, 0, 12)]),
    (true, [(Op::Le, 50, -107_807_827, 0, 10), (Op::Ge, 9, 6_947_460_341, 0, 11)]),
    (true, [(Op::Le, 50, -107_807_827, 0, 10), (Op::Le, 64, 401_411_759_521, 0, 12)]),
    (false, [(Op::Ge, 58, 87_582_148_468_611, 0, 12), (Op::Le, 34, -649_924_195, 0, 12)]),
    (true, [(Op::Le, 14, -1_334_336_613_744, 0, 12), (Op::Le, 64, 294_692_937_497, 0, 12)]),
    (true, [(Op::Le, 54, 16_815_653_800_848, 0, 12), (Op::Le, 46, -781_972_702_142, 0, 12)]),
    (true, [(Op::Le, 14, -1_970_296_088_074, 0, 12), (Op::Ge, 1, 13_438_071_751_687, 0, 12)]),
    (true, [(Op::Le, 34, -88_103_787, 0, 10), (Op::Ge, 15, 838_389_255_232, 0, 12)]),
    (false, [(Op::Le, 48, 0, 0, 0), (Op::Le, 34, -1_555_592_433, 0, 12)]),
    (true, [(Op::Le, 4, -13_135_821_846, 0, 12), (Op::Ge, 11, 114_801_444_660_689, 0, 12)]),
    (false, [(Op::Ge, 55, 88_325_740_640_992, 0, 12), (Op::Le, 15, 1_703_673_786_689, 0, 12)]),
    (false, [(Op::Ge, 55, 88_325_740_640_992, 0, 12), (Op::Le, 12, 114_585_522_147_979, 0, 12)]),
    (true, [(Op::Le, 7, -6_812_659_013, 0, 12), (Op::Le, 35, 3_892_759_088, 0, 12)]),
    (true, [(Op::Ge, 49, 2, 0, 0), (Op::Ge, 18, 55_600_520_317, 0, 12)]),
    (true, [(Op::Le, 14, -255_850_139_458, 0, 11), (Op::Ge, 40, 677_516_823, 0, 12)]),
    (false, [(Op::Ge, 23, 89_607_310_064, 0, 12), (Op::Le, 16, 1_048_736_347_697, 0, 12)]),
    (true, [(Op::Le, 14, -2_186_848_887_508, 0, 12), (Op::Ge, 67, 32_872_077_208, 0, 12)]),
    (true, [(Op::Le, 3, 83_867_390_324, 0, 12), (Op::Ge, 66, 14_137_917_108, 0, 12)]),
    (true, [(Op::Le, 3, 83_867_390_324, 0, 12), (Op::Le, 45, 41_501_807_801, 0, 11)]),
    (false, [(Op::Ge, 7, 2_269_168_662, 0, 11), (Op::Le, 10, -672_155_355_901, 0, 12)]),
    (false, [(Op::Ge, 14, 1_962_352_079_221, 0, 12), (Op::Le, 42, 37_017_750_359_136, 0, 12)]),
    (false, [(Op::Ge, 54, 64_191_554_432_408, 0, 12), (Op::Le, 23, 2_878_374_423, 0, 12)]),
    (false, [(Op::Ge, 36, 80_253_046_606, 0, 11), (Op::Le, 38, 330_626_902, 0, 12)]),
    (true, [(Op::Le, 13, 89_213_320_949, 0, 12), (Op::Ge, 27, 1, 0, 0)]),
    (false, [(Op::Ge, 55, 88_325_740_640_992, 0, 12), (Op::Le, 12, 127_802_445_543_786, 0, 12)]),
    (false, [(Op::Ge, 21, -2_077_937_651, 0, 12), (Op::Ge, 20, 69_654_406_809, 0, 12)]),
    (true, [(Op::Le, 58, 4_845_802_158_605, 0, 12), (Op::Le, 1, -1_081_483_750_837, 0, 12)]),
    (false, [(Op::Ge, 58, 95_010_861_843_374, 0, 12), (Op::Ge, 66, 25_174_710_705, 0, 12)]),
    (true, [(Op::Le, 36, 335_678_247_138, 0, 12), (Op::Le, 46, -1_536_658_910_705, 0, 12)]),
    (false, [(Op::Ge, 55, 85_785_356_550_293, 0, 12), (Op::Ge, 0, 7_069_171_215_076, 0, 12)]),
    (true, [(Op::Le, 36, 218_185_817_798, 0, 12), (Op::Le, 61, 35_918_324_407, 0, 12)]),
    (true, [(Op::Le, 58, 2_667_588_714_436, 0, 12), (Op::Le, 10, -672_155_355_901, 0, 12)]),
    (true, [(Op::Le, 59, 5_251_600_440_171, 0, 12), (Op::Ge, 1, 6_855_156_552_576, 0, 12)]),
    (true, [(Op::Le, 59, 9_711_755_951_452, 0, 12), (Op::Ge, 39, 50_815_714_285_668, 0, 12)]),
    (false, [(Op::Ge, 43, 8_980_044_543_946, 0, 11), (Op::Le, 51, -5_049_606_963, 0, 12)]),
    (false, [(Op::Ge, 43, 8_980_044_543_946, 0, 11), (Op::Le, 56, 60_198_393_960_611, 0, 12)]),
    (false, [(Op::Ge, 33, 5, 0, 0), (Op::Le, 41, -10_354_562_484, 0, 12)]),
    (false, [(Op::Ge, 33, 6, 0, 0), (Op::Ge, 1, 13_438_071_751_687, 0, 12)]),
    (false, [(Op::Ge, 59, 94_633_462_182_502, 0, 12), (Op::Le, 66, -7_337_505_493, 0, 12)]),
    (false, [(Op::Ge, 59, 94_633_462_182_502, 0, 12), (Op::Le, 45, 41_501_807_801, 0, 11)]),
    (true, [(Op::Le, 54, 10_880_992_792_283, 0, 12), (Op::Ge, 62, 14_569_887_971, 0, 12)]),
    (false, [(Op::Ge, 21, -409_020_996, 0, 12), (Op::Le, 41, -5_247_823_951, 0, 12)]),
    (true, [(Op::Le, 32, 0, 0, 0), (Op::Ge, 62, 12_698_614_211, 0, 12)]),
    (true, [(Op::Le, 32, 0, 0, 0), (Op::Ge, 41, 7_101_123_994, 0, 12)]),
    (true, [(Op::Ge, 49, 4, 0, 0), (Op::Ge, 16, 2_255_084_993_412, 0, 12)]),
    (true, [(Op::Le, 36, 307_122_278_049, 0, 12), (Op::Ge, 51, 2_986_725_743, 0, 12)]),
    (true, [(Op::Le, 36, 307_122_278_049, 0, 12), (Op::Ge, 66, 16_352_132_612, 0, 12)]),
    (true, [(Op::Le, 11, -264_440_276_366_037, 0, 12), (Op::Le, 43, 13_050_476_937_067, 0, 12)]),
    (true, [
        (Op::Le, 11, -264_440_276_366_037, 0, 12),
        (Op::Between, 43, 44_954_532_800_507, 54_831_328_521_965, 12),
    ]),
    (true, [(Op::Le, 11, -264_440_276_366_037, 0, 12), (Op::Le, 46, 216_746_335_689, 0, 12)]),
    (false, [(Op::Ge, 58, 89_541_313_522_713, 0, 12), (Op::Le, 65, -1_385_238_691_491, 0, 12)]),
    (false, [(Op::Ge, 58, 89_541_313_522_713, 0, 12), (Op::Ge, 0, 30_625_040_783_455, 0, 12)]),
    (true, [(Op::Le, 36, 282_482_101_409, 0, 12), (Op::Ge, 18, 17_136_786_069, 0, 12)]),
    (false, [(Op::Ge, 58, 87_582_148_468_611, 0, 12), (Op::Le, 51, -2_741_635_191, 0, 12)]),
    (true, [(Op::Le, 42, 8_551_406_555_269, 0, 12), (Op::Le, 0, -1_065_253_216_544, 0, 11)]),
    (true, [(Op::Le, 42, 8_551_406_555_269, 0, 12), (Op::Le, 35, 39_537_406_427, 0, 12)]),
    (true, [(Op::Le, 14, -1_334_336_613_744, 0, 12), (Op::Ge, 20, 5_731_139_405, 0, 11)]),
    (true, [(Op::Le, 12, -296_373_970_792_508, 0, 12), (Op::Ge, 34, -3_927_732_991, 0, 12)]),
    (true, [(Op::Le, 43, 10_339_569_656_362, 0, 12), (Op::Le, 62, 248_581_366, 0, 12)]),
    (true, [(Op::Le, 14, -1_586_231_489_434, 0, 12), (Op::Ge, 43, 73_639_202_986_603, 0, 12)]),
    (false, [(Op::Ge, 36, 735_382_052_348, 0, 12), (Op::Ge, 29, 6, 0, 0)]),
    (true, [(Op::Le, 36, 378_420_082_698, 0, 12), (Op::Le, 14, -2_733_254_693_763, 0, 12)]),
    (false, [(Op::Ge, 21, -1_486_921_254, 0, 12), (Op::Ge, 0, 14_249_712_652_214, 0, 12)]),
    (true, [(Op::Le, 4, -13_135_821_846, 0, 12), (Op::Ge, 42, 84_565_462_141_233, 0, 12)]),
    (false, [(Op::Ge, 55, 88_325_740_640_992, 0, 12), (Op::Le, 40, 1_174_029_944, 0, 12)]),
    (true, [(Op::Le, 56, 24_975_510_474_295, 0, 12), (Op::Ge, 43, 39_788_932_118_881, 0, 12)]),
    (false, [(Op::Ge, 36, 682_488_787_105, 0, 12), (Op::Le, 16, 346_497_778_931, 0, 12)]),
    (true, [(Op::Le, 32, 1, 0, 0), (Op::Le, 16, 346_497_778_931, 0, 12)]),
    (false, [(Op::Ge, 43, 87_326_571_431_094, 0, 12), (Op::Le, 64, 319_900_011_809, 0, 12)]),
    (true, [(Op::Le, 3, -293_693_136_323, 0, 12), (Op::Ge, 61, 389_314_900_769, 0, 12)]),
    (true, [(Op::Le, 4, -2_906_015_874, 0, 12), (Op::Ge, 0, 14_249_712_652_214, 0, 12)]),
    (true, [(Op::Le, 42, 5_829_683_244_288, 0, 12), (Op::Eq, 37, 23, 0, 0)]),
    (false, [(Op::Ge, 58, 98_026_144_238_666, 0, 12), (Op::Le, 16, 346_497_778_931, 0, 12)]),
    (false, [(Op::Ge, 55, 8_015_965_415_611, 0, 11), (Op::Le, 47, 0, 0, 0)]),
    (true, [(Op::Le, 15, -2_118_942_180_943, 0, 12), (Op::Ge, 40, 677_516_823, 0, 12)]),
    (true, [(Op::Le, 3, 45_800_786_039, 0, 12), (Op::Le, 65, -1_100_475_105_203, 0, 12)]),
    (true, [(Op::Le, 55, 37_670_808_563_448, 0, 12), (Op::Ge, 41, 9_953_537_523, 0, 12)]),
    (false, [(Op::Ge, 42, 88_271_737_232_917, 0, 12), (Op::Le, 24, 7_117_316_977, 0, 12)]),
    (true, [(Op::Le, 34, -5_579_021_174, 0, 12), (Op::Ge, 12, 114_585_522_147_979, 0, 12)]),
    (false, [(Op::Ge, 55, 70_510_977_130_054, 0, 12), (Op::Ge, 30, 11, 0, 0)]),
    (false, [(Op::Ge, 55, 76_610_575_342_271, 0, 12), (Op::Le, 35, 24_403_590_639, 0, 12)]),
    (true, [(Op::Le, 58, 4_845_802_158_605, 0, 12), (Op::Eq, 37, 20, 0, 0)]),
    (true, [(Op::Le, 59, 9_711_755_951_452, 0, 12), (Op::Ge, 1, 13_438_071_751_687, 0, 12)]),
    (true, [(Op::Le, 58, 9_266_584_745_766, 0, 12), (Op::Le, 2, 1_611_324_521, 0, 12)]),
    (false, [(Op::Ge, 59, 97_799_245_309_998, 0, 12), (Op::Ge, 2, 15_565_536_959, 0, 12)]),
    (true, [(Op::Le, 24, 3_883_345_889, 0, 12), (Op::Ge, 0, 30_625_040_783_455, 0, 12)]),
    (true, [(Op::Le, 14, -1_114_097_501_656, 0, 12), (Op::Ge, 20, 5_731_139_405, 0, 11)]),
    (true, [(Op::Le, 58, 24_430_142_129_257, 0, 12), (Op::Ge, 20, 5_731_139_405, 0, 11)]),
    (false, [(Op::Ge, 23, 89_607_310_064, 0, 12), (Op::Le, 2, 13_586_365_309, 0, 12)]),
    (true, [(Op::Le, 46, -1_536_658_910_705, 0, 12), (Op::Le, 59, 24_168_754_528_768, 0, 12)]),
    (false, [(Op::Ge, 59, 97_799_245_309_998, 0, 12), (Op::Eq, 37, 6, 0, 0)]),
    (true, [(Op::Le, 13, 110_521_327_309, 0, 12), (Op::Ge, 27, 1, 0, 0)]),
    (false, [(Op::Ge, 58, 95_010_861_843_374, 0, 12), (Op::Le, 40, -710_524_492, 0, 12)]),
    (false, [(Op::Ge, 21, -1_486_921_254, 0, 12), (Op::Ge, 0, 7_069_171_215_076, 0, 12)]),
    (false, [(Op::Le, 48, 0, 0, 0), (Op::Le, 17, -16_588_506_863, 0, 12)]),
    (false, [(Op::Ge, 36, 682_488_787_105, 0, 12), (Op::Le, 51, -2_741_635_191, 0, 12)]),
    (false, [(Op::Ge, 42, 92_538_838_851_052, 0, 12), (Op::Le, 10, -227_167_506_527, 0, 12)]),
    (false, [(Op::Ge, 7, 2_269_168_662, 0, 11), (Op::Le, 52, -13_915_095_326, 0, 12)]),
    (true, [(Op::Le, 56, 19_168_638_833_873, 0, 12), (Op::Eq, 68, 6, 0, 0)]),
    (true, [(Op::Le, 50, -3_848_934_884, 0, 12), (Op::Ge, 12, 249_550_501_703_559, 0, 12)]),
    (true, [(Op::Le, 46, -1_536_658_910_705, 0, 12), (Op::Le, 22, -22_318_725_425, 0, 12)]),
    (true, [(Op::Le, 59, 9_711_755_951_452, 0, 12), (Op::Le, 16, 421_734_393_474, 0, 12)]),
    (true, [(Op::Le, 32, 0, 0, 0), (Op::Ge, 54, 46_363_173_508_285, 0, 12)]),
    (false, [(Op::Ge, 33, 4, 0, 0), (Op::Le, 62, 24_786_183, 0, 12)]),
    (true, [(Op::Ge, 49, 6, 0, 0), (Op::Ge, 21, -7_401_969_759, 0, 12)]),
    (true, [(Op::Le, 13, 186_502_931, 0, 12), (Op::Le, 67, -14_757_646_695, 0, 12)]),
    (true, [(Op::Le, 11, -264_440_276_366_037, 0, 12), (Op::Eq, 37, 16, 0, 0)]),
    (true, [(Op::Le, 54, 16_815_653_800_848, 0, 12), (Op::Le, 65, -625_244_346_095, 0, 12)]),
    (true, [(Op::Le, 34, -88_103_787, 0, 10), (Op::Ge, 17, 316_609_386, 0, 11)]),
    (true, [(Op::Le, 56, 27_185_662_222_686, 0, 12), (Op::Ge, 12, -43_533_872_572_536, 0, 12)]),
    (true, [(Op::Le, 42, 10_831_501_560_562, 0, 12), (Op::Ge, 23, 32_597_623_032, 0, 12)]),
    (true, [(Op::Le, 24, 2_900_258_506, 0, 12), (Op::Ge, 67, 20_288_489_414, 0, 12)]),
    (false, [(Op::Ge, 58, 9_258_675_389_879, 0, 11), (Op::Le, 40, -710_524_492, 0, 12)]),
    (true, [(Op::Le, 13, 160_650_711_145, 0, 12), (Op::Ge, 0, 4_657_215_509_588, 0, 12)]),
    (true, [(Op::Le, 36, 282_482_101_409, 0, 12), (Op::Ge, 18, 9_380_892_054, 0, 12)]),
    (true, [(Op::Le, 36, 282_482_101_409, 0, 12), (Op::Le, 10, -672_155_355_901, 0, 12)]),
    (true, [(Op::Ge, 49, 2, 0, 0), (Op::Ge, 20, 79_980_230_055, 0, 12)]),
    (false, [(Op::Ge, 58, 98_026_144_238_666, 0, 12), (Op::Le, 64, 485_298_641_061, 0, 12)]),
    (false, [
        (Op::Ge, 23, 89_607_310_064, 0, 12), (Op::Between, 38, 1_043_051_246, 1_823_518_470, 12),
    ]),
    (true, [(Op::Le, 46, -1_536_658_910_705, 0, 12), (Op::Le, 19, -4_457_586_342, 0, 12)]),
    (true, [(Op::Le, 24, 2_900_258_506, 0, 12), (Op::Ge, 67, 15_962_036_922, 0, 12)]),
    (true, [(Op::Le, 24, 1_601_366_876, 0, 12), (Op::Ge, 67, 14_065_228_263, 0, 12)]),
    (true, [(Op::Le, 58, 1_371_097_431_342, 0, 12), (Op::Ge, 67, 10_852_199_486, 0, 12)]),
    (true, [(Op::Le, 56, 21_973_808_882_615, 0, 12), (Op::Eq, 37, 2, 0, 0)]),
    (true, [(Op::Le, 59, 1_724_176_425_078, 0, 12), (Op::Ge, 34, -2_897_737_883, 0, 12)]),
    (true, [(Op::Le, 13, 110_521_327_309, 0, 12), (Op::Ge, 0, 1_373_119_792_908, 0, 12)]),
    (true, [(Op::Le, 51, -5_049_606_963, 0, 12), (Op::Le, 35, 3_892_759_088, 0, 12)]),
    (true, [(Op::Le, 3, 156_166_218_685, 0, 12), (Op::Le, 1, -42_545_668_662_262, 0, 12)]),
    (true, [(Op::Le, 59, 3_156_069_283_152, 0, 12), (Op::Eq, 37, 21, 0, 0)]),
    (false, [(Op::Ge, 21, -193_374_386, 0, 12), (Op::Le, 38, 0, 0, 0)]),
    (true, [(Op::Le, 13, 16_780_876_652, 0, 12), (Op::Le, 40, -4_351_170_326, 0, 12)]),
    (false, [(Op::Ge, 22, -121_384_214, 0, 11), (Op::Le, 13, 408_114_754_734, 0, 12)]),
    (true, [(Op::Le, 23, 905_802_239, 0, 12), (Op::Ge, 14, -73_657_496_892, 0, 11)]),
    (false, [(Op::Ge, 59, 960_335_550_175, 0, 10), (Op::Le, 1, -1_081_483_750_837, 0, 12)]),
    (true, [(Op::Le, 13, 56_247_011_082, 0, 12), (Op::Ge, 57, 540_841_360_867, 0, 12)]),
    (true, [(Op::Le, 4, -6_258_679_323, 0, 12), (Op::Le, 16, 499_150_169_133, 0, 12)]),
    (true, [(Op::Le, 4, -834_711_336, 0, 11), (Op::Le, 30, 2, 0, 0)]),
    (true, [(Op::Le, 54, 19_291_134_799_525, 0, 12), (Op::Le, 10, -313_680_587_227, 0, 12)]),
    (true, [(Op::Le, 31, 0, 0, 0), (Op::Ge, 66, 25_174_710_705, 0, 12)]),
    (true, [
        (Op::Le, 14, -2_353_463_333_651, 0, 12),
        (Op::Between, 46, -464_821_755_383, -73_200_228_374, 12),
    ]),
    (true, [(Op::Le, 43, 10_339_569_656_362, 0, 12), (Op::Le, 30, 2, 0, 0)]),
    (false, [(Op::Ge, 36, 682_488_787_105, 0, 12), (Op::Le, 34, -3_927_732_991, 0, 12)]),
    (true, [(Op::Le, 58, 24_430_142_129_257, 0, 12), (Op::Ge, 11, 47_005_414_521_394, 0, 12)]),
    (true, [(Op::Le, 36, 405_699_915_549, 0, 12), (Op::Ge, 12, 207_033_158_725_627, 0, 12)]),
    (true, [(Op::Le, 34, -3_927_732_991, 0, 12), (Op::Le, 46, -1_422_984_964_535, 0, 12)]),
    (true, [(Op::Le, 14, -255_850_139_458, 0, 11), (Op::Eq, 37, 20, 0, 0)]),
    (true, [(Op::Le, 55, 37_670_808_563_448, 0, 12), (Op::Ge, 20, 33_661_984_868, 0, 12)]),
    (false, [(Op::Ge, 43, 84_366_649_993_316, 0, 12), (Op::Le, 36, 335_678_247_138, 0, 12)]),
    (true, [(Op::Le, 15, -3_275_620_005_277, 0, 12), (Op::Ge, 4, -6_258_679_323, 0, 12)]),
    (true, [(Op::Le, 42, 10_831_501_560_562, 0, 12), (Op::Ge, 16, 2_255_084_993_412, 0, 12)]),
    (false, [(Op::Ge, 43, 8_980_044_543_946, 0, 11), (Op::Le, 63, 3_091_757_798, 0, 12)]),
    (true, [(Op::Le, 58, 15_251_559_689_203, 0, 12), (Op::Ge, 61, 102_022_412_698_827, 0, 12)]),
    (false, [(Op::Ge, 59, 97_799_245_309_998, 0, 12), (Op::Eq, 37, 11, 0, 0)]),
    (true, [(Op::Le, 36, 335_678_247_138, 0, 12), (Op::Ge, 34, 3_961_522_568, 0, 12)]),
    (false, [(Op::Ge, 14, 1_722_377_357_787, 0, 12), (Op::Le, 10, -672_155_355_901, 0, 12)]),
    (true, [
        (Op::Le, 15, -3_275_620_005_277, 0, 12),
        (Op::Between, 6, 348_371_370_028, 505_467_918_320, 12),
    ]),
    (false, [(Op::Ge, 43, 82_208_371_283_464, 0, 12), (Op::Le, 36, 335_678_247_138, 0, 12)]),
    (false, [(Op::Ge, 55, 76_610_575_342_271, 0, 12), (Op::Le, 62, 24_786_183, 0, 12)]),
    (true, [(Op::Le, 55, 18_570_891_908_685, 0, 12), (Op::Eq, 37, 2, 0, 0)]),
    (false, [
        (Op::Ge, 56, 82_623_793_495_996, 0, 12),
        (Op::Between, 2, 6_117_730_378, 7_861_395_294, 12),
    ]),
    (false, [(Op::Ge, 21, -409_020_996, 0, 12), (Op::Le, 14, 1_343_326_918_368, 0, 12)]),
    (true, [(Op::Le, 50, -12_975_327_157, 0, 12), (Op::Ge, 43, 73_639_202_986_603, 0, 12)]),
    (true, [(Op::Le, 54, 36_800_776_725_066, 0, 12), (Op::Ge, 20, 33_661_984_868, 0, 12)]),
    (true, [(Op::Le, 46, -1_536_658_910_705, 0, 12), (Op::Eq, 37, 3, 0, 0)]),
    (false, [(Op::Ge, 21, -193_374_386, 0, 12), (Op::Ge, 3, 1_300_789_052_776, 0, 12)]),
    (true, [(Op::Le, 13, 16_780_876_652, 0, 12), (Op::Le, 10, -672_155_355_901, 0, 12)]),
    (false, [(Op::Ge, 59, 92_398_919_564_528, 0, 12), (Op::Le, 57, -154_535_539_948, 0, 11)]),
    (true, [(Op::Le, 13, 186_502_931, 0, 12), (Op::Le, 65, -1_385_238_691_491, 0, 12)]),
    (false, [(Op::Ge, 58, 9_258_675_389_879, 0, 11), (Op::Le, 4, -1_640_394_711, 0, 12)]),
    (true, [(Op::Le, 54, 13_443_623_461_596, 0, 12), (Op::Eq, 37, 3, 0, 0)]),
    (true, [(Op::Le, 54, 19_291_134_799_525, 0, 12), (Op::Ge, 39, 103_358_300_394_673, 0, 12)]),
    (true, [(Op::Le, 24, 4_499_095_898, 0, 12), (Op::Ge, 57, 222_226_616_351, 0, 11)]),
    (false, [(Op::Ge, 22, -2_344_473_015, 0, 12), (Op::Ge, 1, 13_438_071_751_687, 0, 12)]),
    (false, [(Op::Le, 48, 0, 0, 0), (Op::Le, 40, -540_043_628, 0, 11)]),
    (true, [(Op::Le, 4, -13_135_821_846, 0, 12), (Op::Ge, 52, 42_397_489_333, 0, 12)]),
    (true, [(Op::Le, 7, -5_085_891_719, 0, 12), (Op::Ge, 56, 76_641_583_089_522, 0, 12)]),
    (true, [
        (Op::Le, 3, -293_693_136_323, 0, 12), (Op::Between, 40, -326_822_830, 294_242_144, 12),
    ]),
    (true, [(Op::Le, 24, 5_802_879_975, 0, 12), (Op::Le, 64, 226_931_525_872, 0, 12)]),
    (false, [(Op::Ge, 21, -2_077_937_651, 0, 12), (Op::Le, 12, -70_584_535_914_177, 0, 12)]),
    (false, [(Op::Ge, 23, 89_607_310_064, 0, 12), (Op::Le, 11, -71_601_769_964_354, 0, 12)]),
    (true, [(Op::Le, 3, 156_166_218_685, 0, 12), (Op::Ge, 11, -19_619_345_111_905, 0, 12)]),
    (true, [(Op::Le, 55, 345_377_351_189, 0, 10), (Op::Ge, 15, -382_943_541_103, 0, 12)]),
    (false, [(Op::Ge, 55, 70_510_977_130_054, 0, 12), (Op::Le, 16, 421_734_393_474, 0, 12)]),
    (true, [(Op::Le, 51, -23_052_580_473, 0, 12), (Op::Le, 46, -781_972_702_142, 0, 12)]),
    (false, [(Op::Ge, 54, 64_191_554_432_408, 0, 12), (Op::Le, 41, -10_354_562_484, 0, 12)]),
    (true, [(Op::Le, 59, 24_168_754_528_768, 0, 12), (Op::Ge, 14, 1_343_326_918_368, 0, 12)]),
    (false, [(Op::Ge, 33, 5, 0, 0), (Op::Le, 56, 44_439_233_481_289, 0, 12)]),
    (true, [(Op::Le, 23, 544_949_204, 0, 12), (Op::Ge, 62, 12_698_614_211, 0, 12)]),
    (true, [(Op::Le, 58, 19_992_833_874_478, 0, 12), (Op::Ge, 4, 8_104_133_898, 0, 12)]),
    (true, [(Op::Le, 43, 10_339_569_656_362, 0, 12), (Op::Le, 45, 663_177_938_908, 0, 12)]),
    (true, [(Op::Le, 14, -1_586_231_489_434, 0, 12), (Op::Le, 45, 41_501_807_801, 0, 11)]),
    (true, [(Op::Le, 15, -169_192_343_888, 0, 11), (Op::Le, 45, 41_501_807_801, 0, 11)]),
    (true, [(Op::Le, 54, 36_800_776_725_066, 0, 12), (Op::Le, 46, -1_422_984_964_535, 0, 12)]),
    (true, [(Op::Le, 23, 544_949_204, 0, 12), (Op::Ge, 60, 4_468_097_235, 0, 12)]),
    (true, [(Op::Le, 59, 15_180_011_010_737, 0, 12), (Op::Ge, 61, 102_022_412_698_827, 0, 12)]),
    (false, [(Op::Ge, 36, 80_253_046_606, 0, 11), (Op::Ge, 61, 5_937_114_574_536, 0, 12)]),
    (true, [(Op::Ge, 49, 4, 0, 0), (Op::Ge, 41, 12_219_697_177, 0, 12)]),
    (false, [(Op::Ge, 22, -727_402_067, 0, 12), (Op::Eq, 37, 9, 0, 0)]),
    (false, [(Op::Ge, 59, 89_373_499_384_241, 0, 12), (Op::Le, 56, 53_275_547_235_097, 0, 12)]),
    (true, [(Op::Le, 36, 405_699_915_549, 0, 12), (Op::Ge, 52, 3_248_572_488, 0, 11)]),
    (true, [(Op::Le, 3, 212_888_338_411, 0, 12), (Op::Ge, 20, 33_661_984_868, 0, 12)]),
    (true, [(Op::Le, 36, 335_678_247_138, 0, 12), (Op::Ge, 24, 6_199_942_319, 0, 11)]),
    (false, [(Op::Ge, 14, 1_595_452_540_363, 0, 12), (Op::Ge, 0, 30_625_040_783_455, 0, 12)]),
    (false, [(Op::Ge, 33, 5, 0, 0), (Op::Le, 66, -7_337_505_493, 0, 12)]),
    (true, [(Op::Le, 32, 0, 0, 0), (Op::Eq, 68, 5, 0, 0)]),
    (false, [(Op::Ge, 33, 6, 0, 0), (Op::Le, 2, 3_315_567_219, 0, 12)]),
    (false, [
        (Op::Ge, 43, 87_326_571_431_094, 0, 12),
        (Op::Between, 20, -3_483_247_059, 5_497_807_331, 12),
    ]),
    (false, [(Op::Ge, 59, 92_398_919_564_528, 0, 12), (Op::Le, 45, 375_660_841_825, 0, 12)]),
    (true, [(Op::Le, 50, -5_317_545_063, 0, 12), (Op::Le, 5, 5_359_445_082, 0, 12)]),
    (true, [(Op::Le, 43, 10_339_569_656_362, 0, 12), (Op::Eq, 68, 2, 0, 0)]),
    (true, [(Op::Le, 4, -22_037_703_312, 0, 12), (Op::Eq, 37, 1, 0, 0)]),
    (false, [(Op::Ge, 42, 92_538_838_851_052, 0, 12), (Op::Eq, 37, 13, 0, 0)]),
    (false, [(Op::Ge, 55, 8_015_965_415_611, 0, 11), (Op::Le, 46, -979_734_943_474, 0, 12)]),
    (false, [(Op::Ge, 56, 82_623_793_495_996, 0, 12), (Op::Le, 35, 238_970_973_439, 0, 12)]),
    (false, [(Op::Ge, 14, 1_962_352_079_221, 0, 12), (Op::Le, 16, 346_497_778_931, 0, 12)]),
    (true, [(Op::Le, 23, 1_239_879_895, 0, 12), (Op::Ge, 14, -362_813_601_211, 0, 12)]),
    (true, [(Op::Le, 58, 15_251_559_689_203, 0, 12), (Op::Ge, 9, 2_735_464_365, 0, 12)]),
    (true, [(Op::Le, 54, 10_880_992_792_283, 0, 12), (Op::Le, 5, 391_630_717, 0, 12)]),
    (true, [(Op::Le, 36, 246_542_685_688, 0, 12), (Op::Ge, 22, -6_079_005_042, 0, 12)]),
    (true, [(Op::Le, 13, 186_502_931, 0, 12), (Op::Ge, 40, 2_443_200_772, 0, 12)]),
    (true, [(Op::Le, 54, 13_443_623_461_596, 0, 12), (Op::Ge, 13, 810_041_941_282, 0, 12)]),
    (false, [(Op::Ge, 58, 963_831_114_696, 0, 10), (Op::Le, 64, 357_082_553_591, 0, 12)]),
    (false, [(Op::Ge, 32, 5, 0, 0), (Op::Le, 56, 30_070_530_512_101, 0, 12)]),
    (true, [(Op::Le, 7, -9_512_380_842, 0, 12), (Op::Ge, 36, 637_963_905_121, 0, 12)]),
    (true, [(Op::Le, 54, 2_287_928_198_245, 0, 11), (Op::Ge, 20, 10_985_554_175, 0, 12)]),
    (false, [(Op::Ge, 59, 87_588_360_619_543, 0, 12), (Op::Le, 32, 1, 0, 0)]),
    (false, [(Op::Ge, 59, 87_588_360_619_543, 0, 12), (Op::Le, 20, -27_044_536_727, 0, 12)]),
    (false, [(Op::Ge, 59, 83_360_348_764_515, 0, 12), (Op::Le, 52, -7_193_698_402, 0, 12)]),
    (true, [(Op::Le, 3, -22_563_546_352, 0, 12), (Op::Le, 64, 536_537_521_914, 0, 12)]),
    (true, [(Op::Le, 58, 24_430_142_129_257, 0, 12), (Op::Ge, 3, 615_571_013_053, 0, 12)]),
    (false, [(Op::Ge, 55, 85_785_356_550_293, 0, 12), (Op::Eq, 37, 11, 0, 0)]),
    (true, [(Op::Le, 15, -2_118_942_180_943, 0, 12), (Op::Le, 16, 379_321_903_939, 0, 12)]),
    (true, [(Op::Le, 14, -73_657_496_892, 0, 11), (Op::Ge, 54, 58_891_307_380_605, 0, 12)]),
    (false, [(Op::Ge, 7, 2_269_168_662, 0, 11), (Op::Ge, 29, 6, 0, 0)]),
    (true, [(Op::Le, 58, 4_845_802_158_605, 0, 12), (Op::Le, 46, -781_972_702_142, 0, 12)]),
    (true, [(Op::Le, 34, -88_103_787, 0, 10), (Op::Le, 1, -1_819_858_189_307, 0, 12)]),
    (true, [(Op::Le, 50, -12_975_327_157, 0, 12), (Op::Ge, 8, 16_422_674_249, 0, 12)]),
    (true, [(Op::Le, 4, -6_258_679_323, 0, 12), (Op::Ge, 42, 9_021_492_658_429, 0, 11)]),
    (false, [(Op::Ge, 33, 4, 0, 0), (Op::Le, 20, -38_371_582_198, 0, 12)]),
    (false, [(Op::Ge, 22, -727_402_067, 0, 12), (Op::Le, 31, 1, 0, 0)]),
    (false, [(Op::Ge, 42, 9_021_492_658_429, 0, 11), (Op::Eq, 37, 5, 0, 0)]),
    (true, [
        (Op::Le, 59, 13_103_119_286_977, 0, 12),
        (Op::Between, 58, 42_802_729_931_752, 61_254_716_857_094, 12),
    ]),
    (true, [(Op::Le, 59, 1_724_176_425_078, 0, 12), (Op::Le, 43, 16_087_074_533_329, 0, 12)]),
    (true, [(Op::Le, 13, 186_502_931, 0, 12), (Op::Ge, 34, 3_961_522_568, 0, 12)]),
    (true, [(Op::Le, 58, 24_430_142_129_257, 0, 12), (Op::Le, 45, 277_103_422_926, 0, 12)]),
    (false, [(Op::Ge, 42, 92_538_838_851_052, 0, 12), (Op::Le, 66, -2_285_631_107, 0, 12)]),
    (false, [(Op::Ge, 42, 9_021_492_658_429, 0, 11), (Op::Le, 6, 19_842_055_015, 0, 12)]),
    (true, [(Op::Le, 24, 3_883_345_889, 0, 12), (Op::Ge, 1, 13_438_071_751_687, 0, 12)]),
    (false, [(Op::Ge, 36, 712_764_986_117, 0, 12), (Op::Ge, 6, 854_118_381_787, 0, 12)]),
    (false, [(Op::Ge, 58, 98_026_144_238_666, 0, 12), (Op::Le, 51, 2_986_725_743, 0, 12)]),
    (true, [(Op::Le, 3, 156_166_218_685, 0, 12), (Op::Le, 1, -20_780_423_400_716, 0, 12)]),
    (true, [(Op::Le, 55, 20_878_329_763_064, 0, 12), (Op::Le, 10, -141_889_659_972, 0, 12)]),
    (false, [(Op::Ge, 42, 92_538_838_851_052, 0, 12), (Op::Eq, 37, 16, 0, 0)]),
    (false, [(Op::Ge, 21, -193_374_386, 0, 12), (Op::Ge, 60, 176_479_147, 0, 12)]),
    (false, [(Op::Ge, 59, 97_799_245_309_998, 0, 12), (Op::Le, 11, 47_005_414_521_394, 0, 12)]),
    (true, [(Op::Le, 4, -6_258_679_323, 0, 12), (Op::Ge, 59, 87_588_360_619_543, 0, 12)]),
    (false, [(Op::Ge, 36, 80_253_046_606, 0, 11), (Op::Le, 65, -845_591_632_774, 0, 12)]),
    (false, [(Op::Ge, 59, 92_398_919_564_528, 0, 12), (Op::Le, 36, 426_292_967_876, 0, 12)]),
    (true, [(Op::Le, 13, 186_502_931, 0, 12), (Op::Ge, 62, 12_698_614_211, 0, 12)]),
    (false, [(Op::Ge, 59, 89_373_499_384_241, 0, 12), (Op::Ge, 2, 27_526_795_523, 0, 12)]),
    (true, [(Op::Le, 24, 3_883_345_889, 0, 12), (Op::Ge, 26, 1, 0, 0)]),
    (false, [(Op::Ge, 36, 682_488_787_105, 0, 12), (Op::Le, 1, -20_780_423_400_716, 0, 12)]),
    (false, [(Op::Ge, 55, 8_015_965_415_611, 0, 11), (Op::Le, 20, 5_497_807_331, 0, 12)]),
    (true, [(Op::Le, 15, -1_836_158_938_595, 0, 12), (Op::Ge, 25, 1, 0, 0)]),
    (true, [(Op::Le, 36, 218_185_817_798, 0, 12), (Op::Le, 46, -979_734_943_474, 0, 12)]),
    (false, [(Op::Ge, 33, 4, 0, 0), (Op::Ge, 0, 14_249_712_652_214, 0, 12)]),
    (false, [(Op::Ge, 21, -2_433_279_017, 0, 12), (Op::Ge, 0, 14_249_712_652_214, 0, 12)]),
    (false, [(Op::Ge, 7, 2_269_168_662, 0, 11), (Op::Le, 62, 248_581_366, 0, 12)]),
    (false, [(Op::Ge, 14, 1_962_352_079_221, 0, 12), (Op::Le, 16, 379_321_903_939, 0, 12)]),
    (true, [(Op::Le, 50, -8_267_982_551, 0, 12), (Op::Le, 64, 536_537_521_914, 0, 12)]),
    (false, [(Op::Ge, 36, 735_382_052_348, 0, 12), (Op::Ge, 61, 24_524_084_565_759, 0, 12)]),
    (true, [(Op::Le, 32, 0, 0, 0), (Op::Eq, 68, 3, 0, 0)]),
    (false, [(Op::Le, 48, 0, 0, 0), (Op::Le, 40, -3_731_388_935, 0, 12)]),
    (true, [(Op::Le, 58, 6_452_676_568_325, 0, 12), (Op::Ge, 40, 677_516_823, 0, 12)]),
    (false, [(Op::Ge, 43, 8_980_044_543_946, 0, 11), (Op::Eq, 68, 3, 0, 0)]),
    (true, [(Op::Le, 13, 16_780_876_652, 0, 12), (Op::Le, 10, -479_441_712_554, 0, 12)]),
    (false, [(Op::Ge, 33, 6, 0, 0), (Op::Ge, 0, 4_657_215_509_588, 0, 12)]),
    (true, [(Op::Le, 32, 0, 0, 0), (Op::Ge, 14, -73_657_496_892, 0, 11)]),
    (true, [(Op::Le, 50, -5_317_545_063, 0, 12), (Op::Ge, 36, 712_764_986_117, 0, 12)]),
    (true, [(Op::Le, 36, 282_482_101_409, 0, 12), (Op::Eq, 37, 0, 0, 0)]),
    (true, [(Op::Le, 7, -6_812_659_013, 0, 12), (Op::Ge, 24, 117_516_911_206, 0, 12)]),
    (true, [(Op::Le, 58, 6_452_676_568_325, 0, 12), (Op::Le, 0, -1_915_883_231_776, 0, 12)]),
    (true, [(Op::Le, 58, 12_958_361_968_728, 0, 12), (Op::Le, 65, -1_385_238_691_491, 0, 12)]),
    (false, [(Op::Ge, 59, 94_633_462_182_502, 0, 12), (Op::Le, 22, -6_079_005_042, 0, 12)]),
    (false, [(Op::Ge, 33, 4, 0, 0), (Op::Le, 65, -1_385_238_691_491, 0, 12)]),
    (true, [(Op::Le, 11, -264_440_276_366_037, 0, 12), (Op::Ge, 1, 4_325_244_011_802, 0, 12)]),
    (false, [(Op::Ge, 58, 9_258_675_389_879, 0, 11), (Op::Le, 13, 306_261_093_449, 0, 12)]),
    (false, [(Op::Ge, 21, -1_005_628_718, 0, 12), (Op::Le, 62, 48_914_233, 0, 12)]),
    (false, [(Op::Ge, 58, 87_582_148_468_611, 0, 12), (Op::Le, 13, 56_247_011_082, 0, 12)]),
    (false, [(Op::Ge, 32, 5, 0, 0), (Op::Le, 43, 17_976_545_306_636, 0, 12)]),
    (true, [(Op::Le, 14, -1_586_231_489_434, 0, 12), (Op::Ge, 36, 637_963_905_121, 0, 12)]),
    (false, [(Op::Ge, 36, 735_382_052_348, 0, 12), (Op::Le, 43, 24_709_740_053_435, 0, 12)]),
    (true, [(Op::Le, 14, -1_970_296_088_074, 0, 12), (Op::Ge, 57, 1_841_596_579_591, 0, 12)]),
    (false, [(Op::Ge, 36, 682_488_787_105, 0, 12), (Op::Le, 14, -1_114_097_501_656, 0, 12)]),
    (false, [(Op::Ge, 58, 83_042_281_112_572, 0, 12), (Op::Le, 36, 335_678_247_138, 0, 12)]),
    (true, [(Op::Le, 14, -1_114_097_501_656, 0, 12), (Op::Ge, 3, 615_571_013_053, 0, 12)]),
    (true, [(Op::Le, 58, 24_430_142_129_257, 0, 12), (Op::Ge, 24, 85_104_407_075, 0, 12)]),
    (true, [(Op::Le, 42, 5_829_683_244_288, 0, 12), (Op::Eq, 37, 0, 0, 0)]),
    (false, [(Op::Ge, 42, 92_538_838_851_052, 0, 12), (Op::Le, 36, 378_420_082_698, 0, 12)]),
    (true, [
        (Op::Le, 14, -255_850_139_458, 0, 11),
        (Op::Between, 65, -481_713_759_114, -108_072_495_769, 12),
    ]),
    (false, [(Op::Ge, 55, 85_785_356_550_293, 0, 12), (Op::Le, 56, 74_332_784_822_998, 0, 12)]),
    (false, [(Op::Ge, 55, 85_785_356_550_293, 0, 12), (Op::Le, 66, 2_475_653_874, 0, 12)]),
    (true, [(Op::Le, 15, -1_836_158_938_595, 0, 12), (Op::Ge, 20, 30_139_343_022, 0, 12)]),
    (false, [(Op::Ge, 55, 70_510_977_130_054, 0, 12), (Op::Le, 15, 838_389_255_232, 0, 12)]),
    (true, [(Op::Le, 59, 9_711_755_951_452, 0, 12), (Op::Eq, 37, 20, 0, 0)]),
    (false, [(Op::Ge, 14, 1_595_452_540_363, 0, 12), (Op::Le, 0, -4_139_667_243_924, 0, 12)]),
    (true, [(Op::Le, 13, 56_247_011_082, 0, 12), (Op::Le, 10, -479_441_712_554, 0, 12)]),
    (true, [(Op::Le, 50, -8_267_982_551, 0, 12), (Op::Ge, 16, 2_255_084_993_412, 0, 12)]),
    (false, [(Op::Ge, 58, 87_582_148_468_611, 0, 12), (Op::Le, 40, -710_524_492, 0, 12)]),
    (true, [(Op::Le, 55, 37_670_808_563_448, 0, 12), (Op::Ge, 15, -382_943_541_103, 0, 12)]),
    (false, [(Op::Ge, 56, 79_821_411_093_328, 0, 12), (Op::Ge, 0, 4_657_215_509_588, 0, 12)]),
    (false, [(Op::Ge, 55, 76_610_575_342_271, 0, 12), (Op::Ge, 0, 14_249_712_652_214, 0, 12)]),
    (true, [(Op::Le, 59, 9_711_755_951_452, 0, 12), (Op::Ge, 61, 24_524_084_565_759, 0, 12)]),
    (false, [(Op::Ge, 14, 1_722_377_357_787, 0, 12), (Op::Ge, 1, 25_309_101_221_933, 0, 12)]),
    (true, [(Op::Le, 59, 24_168_754_528_768, 0, 12), (Op::Ge, 20, 30_139_343_022, 0, 12)]),
    (true, [(Op::Le, 59, 9_711_755_951_452, 0, 12), (Op::Ge, 7, 1_375_151_652, 0, 12)]),
    (true, [(Op::Le, 58, 1_371_097_431_342, 0, 12), (Op::Ge, 66, 5_828_474_127, 0, 12)]),
    (true, [(Op::Le, 13, 30_383_565_182, 0, 12), (Op::Le, 62, 147_895_196, 0, 12)]),
    (true, [(Op::Le, 13, 186_502_931, 0, 12), (Op::Eq, 37, 16, 0, 0)]),
    (false, [(Op::Ge, 59, 89_373_499_384_241, 0, 12), (Op::Le, 46, -1_422_984_964_535, 0, 12)]),
    (true, [(Op::Le, 51, -11_063_550_376, 0, 12), (Op::Ge, 12, 114_585_522_147_979, 0, 12)]),
    (true, [(Op::Le, 14, -1_334_336_613_744, 0, 12), (Op::Ge, 43, 75_524_132_937_806, 0, 12)]),
    (true, [
        (Op::Le, 43, 10_339_569_656_362, 0, 12),
        (Op::Between, 34, -1_555_592_433, 1_707_746_585, 12),
    ]),
    (false, [(Op::Ge, 55, 88_325_740_640_992, 0, 12), (Op::Le, 59, 83_360_348_764_515, 0, 12)]),
    (false, [(Op::Ge, 59, 83_360_348_764_515, 0, 12), (Op::Le, 11, -19_619_345_111_905, 0, 12)]),
    (true, [(Op::Le, 3, -22_563_546_352, 0, 12), (Op::Ge, 60, 12_910_358_989, 0, 12)]),
    (true, [(Op::Le, 42, 5_829_683_244_288, 0, 12), (Op::Ge, 20, 10_985_554_175, 0, 12)]),
    (true, [(Op::Le, 14, -255_850_139_458, 0, 11), (Op::Le, 16, 499_150_169_133, 0, 12)]),
    (true, [(Op::Le, 13, 16_780_876_652, 0, 12), (Op::Eq, 37, 16, 0, 0)]),
    (false, [(Op::Ge, 36, 80_253_046_606, 0, 11), (Op::Le, 6, 76_960_033_045, 0, 12)]),
    (false, [(Op::Ge, 36, 712_764_986_117, 0, 12), (Op::Eq, 37, 0, 0, 0)]),
    (false, [(Op::Ge, 33, 5, 0, 0), (Op::Le, 40, -1_211_964_591, 0, 12)]),
    (false, [(Op::Ge, 33, 6, 0, 0), (Op::Eq, 37, 20, 0, 0)]),
    (false, [(Op::Ge, 33, 6, 0, 0), (Op::Le, 6, 29_598_827_543, 0, 12)]),
    (true, [(Op::Le, 13, 186_502_931, 0, 12), (Op::Eq, 37, 1, 0, 0)]),
    (true, [(Op::Le, 36, 363_830_865_862, 0, 12), (Op::Ge, 40, 4_414_767_382, 0, 12)]),
    (false, [(Op::Ge, 58, 87_582_148_468_611, 0, 12), (Op::Le, 1, -20_780_423_400_716, 0, 12)]),
    (true, [(Op::Le, 14, -1_586_231_489_434, 0, 12), (Op::Le, 0, -7_107_013_931_768, 0, 12)]),
    (true, [(Op::Le, 14, -1_970_296_088_074, 0, 12), (Op::Le, 35, 118_286_862_474, 0, 12)]),
    (true, [(Op::Le, 42, 5_829_683_244_288, 0, 12), (Op::Ge, 30, 9, 0, 0)]),
    (true, [(Op::Le, 58, 6_452_676_568_325, 0, 12), (Op::Le, 65, -947_922_061_053, 0, 12)]),
    (true, [(Op::Le, 51, -11_063_550_376, 0, 12), (Op::Ge, 42, 80_653_106_179_443, 0, 12)]),
    (false, [(Op::Ge, 55, 70_510_977_130_054, 0, 12), (Op::Le, 16, 451_141_769_134, 0, 12)]),
    (true, [(Op::Le, 59, 5_251_600_440_171, 0, 12), (Op::Eq, 37, 13, 0, 0)]),
    (false, [(Op::Ge, 59, 89_373_499_384_241, 0, 12), (Op::Ge, 2, 23_002_995_475, 0, 12)]),
    (true, [(Op::Le, 56, 24_975_510_474_295, 0, 12), (Op::Le, 38, 193_642_335, 0, 12)]),
    (false, [(Op::Ge, 59, 89_373_499_384_241, 0, 12), (Op::Le, 13, 89_213_320_949, 0, 12)]),
    (false, [(Op::Ge, 36, 712_764_986_117, 0, 12), (Op::Eq, 37, 12, 0, 0)]),
    (true, [(Op::Le, 58, 6_452_676_568_325, 0, 12), (Op::Eq, 37, 21, 0, 0)]),
    (true, [(Op::Le, 51, -11_063_550_376, 0, 12), (Op::Ge, 42, 73_738_981_176_679, 0, 12)]),
    (true, [(Op::Le, 58, 6_452_676_568_325, 0, 12), (Op::Eq, 37, 5, 0, 0)]),
    (false, [(Op::Ge, 21, -1_005_628_718, 0, 12), (Op::Le, 40, -32_682_283, 0, 11)]),
    (false, [(Op::Ge, 59, 87_588_360_619_543, 0, 12), (Op::Ge, 1, 13_438_071_751_687, 0, 12)]),
    (false, [(Op::Ge, 59, 960_335_550_175, 0, 10), (Op::Eq, 37, 1, 0, 0)]),
    (true, [(Op::Le, 59, 9_711_755_951_452, 0, 12), (Op::Ge, 29, 6, 0, 0)]),
    (false, [(Op::Ge, 59, 960_335_550_175, 0, 10), (Op::Le, 0, -1_167_889_331_231, 0, 12)]),
    (false, [(Op::Ge, 33, 6, 0, 0), (Op::Le, 16, 590_766_072_643, 0, 12)]),
    (false, [(Op::Ge, 22, -394_386_125, 0, 12), (Op::Le, 51, 2_986_725_743, 0, 12)]),
    (false, [(Op::Ge, 33, 6, 0, 0), (Op::Eq, 37, 23, 0, 0)]),
    (false, [(Op::Ge, 59, 89_373_499_384_241, 0, 12), (Op::Le, 51, -2_741_635_191, 0, 12)]),
    (false, [(Op::Ge, 36, 682_488_787_105, 0, 12), (Op::Le, 11, -89_913_738_186_233, 0, 12)]),
    (false, [(Op::Ge, 42, 92_538_838_851_052, 0, 12), (Op::Le, 36, 405_699_915_549, 0, 12)]),
    (true, [(Op::Le, 3, 212_888_338_411, 0, 12), (Op::Le, 64, 294_692_937_497, 0, 12)]),
    (true, [(Op::Le, 56, 27_185_662_222_686, 0, 12), (Op::Ge, 17, -5_522_142_294, 0, 12)]),
    (true, [(Op::Le, 34, -1_555_592_433, 0, 12), (Op::Ge, 55, 72_617_548_923_107, 0, 12)]),
    (false, [(Op::Ge, 55, 70_510_977_130_054, 0, 12), (Op::Le, 1, -20_780_423_400_716, 0, 12)]),
    (true, [(Op::Le, 58, 9_266_584_745_766, 0, 12), (Op::Le, 16, 379_321_903_939, 0, 12)]),
    (false, [(Op::Ge, 43, 8_980_044_543_946, 0, 11), (Op::Eq, 68, 5, 0, 0)]),
    (true, [(Op::Le, 11, -264_440_276_366_037, 0, 12), (Op::Le, 64, 157_370_732_418, 0, 11)]),
    (true, [(Op::Le, 13, 89_213_320_949, 0, 12), (Op::Ge, 52, 42_397_489_333, 0, 12)]),
    (false, [(Op::Ge, 59, 83_360_348_764_515, 0, 12), (Op::Le, 65, -1_509_021_822_217, 0, 12)]),
    (true, [(Op::Le, 34, -2_897_737_883, 0, 12), (Op::Ge, 12, 127_802_445_543_786, 0, 12)]),
    (true, [(Op::Le, 3, 83_867_390_324, 0, 12), (Op::Le, 65, -1_100_475_105_203, 0, 12)]),
    (false, [(Op::Ge, 59, 94_633_462_182_502, 0, 12), (Op::Ge, 38, 9_143_642_117, 0, 12)]),
    (true, [(Op::Le, 50, -8_267_982_551, 0, 12), (Op::Ge, 30, 11, 0, 0)]),
    (true, [(Op::Le, 50, -8_267_982_551, 0, 12), (Op::Ge, 22, -10_784_453_702, 0, 12)]),
    (false, [(Op::Ge, 59, 89_373_499_384_241, 0, 12), (Op::Le, 35, 8_590_107_324, 0, 12)]),
    (true, [(Op::Le, 13, 160_650_711_145, 0, 12), (Op::Ge, 33, 5, 0, 0)]),
    (true, [(Op::Le, 23, 2_878_374_423, 0, 12), (Op::Ge, 24, 52_481_730_152, 0, 12)]),
    (true, [(Op::Le, 13, 207_690_553_993, 0, 12), (Op::Le, 0, -21_225_581_979_105, 0, 12)]),
    (true, [(Op::Le, 55, 15_184_312_318_203, 0, 12), (Op::Le, 46, -464_821_755_383, 0, 12)]),
    (true, [(Op::Le, 36, 405_699_915_549, 0, 12), (Op::Ge, 34, 8_514_598_019, 0, 12)]),
    (false, [(Op::Ge, 42, 92_538_838_851_052, 0, 12), (Op::Eq, 37, 12, 0, 0)]),
    (false, [(Op::Ge, 42, 9_021_492_658_429, 0, 11), (Op::Ge, 6, 949_867_547_166, 0, 12)]),
    (false, [(Op::Ge, 43, 82_208_371_283_464, 0, 12), (Op::Le, 13, 186_502_931, 0, 12)]),
    (true, [(Op::Le, 13, 186_502_931, 0, 12), (Op::Eq, 37, 12, 0, 0)]),
    (true, [(Op::Le, 11, -264_440_276_366_037, 0, 12), (Op::Ge, 36, 588_083_928_324, 0, 12)]),
    (true, [(Op::Le, 24, 4_499_095_898, 0, 12), (Op::Ge, 16, 2_255_084_993_412, 0, 12)]),
    (true, [(Op::Le, 55, 24_393_415_791_832, 0, 12), (Op::Le, 46, -1_033_363_918_481, 0, 12)]),
    (false, [(Op::Ge, 22, -3_202_986_598, 0, 12), (Op::Le, 20, -20_295_034_267, 0, 12)]),
    (true, [(Op::Le, 4, -22_037_703_312, 0, 12), (Op::Ge, 44, 1_320, 0, 0)]),
    (true, [(Op::Le, 14, -255_850_139_458, 0, 11), (Op::Eq, 37, 7, 0, 0)]),
    (false, [(Op::Ge, 21, -2_077_937_651, 0, 12), (Op::Ge, 61, 102_022_412_698_827, 0, 12)]),
    (true, [(Op::Le, 15, -2_118_942_180_943, 0, 12), (Op::Ge, 66, 1_121_863_691, 0, 11)]),
    (false, [(Op::Ge, 54, 78_148_726_107_272, 0, 12), (Op::Le, 43, 44_954_532_800_507, 0, 12)]),
    (false, [(Op::Ge, 54, 78_148_726_107_272, 0, 12), (Op::Le, 42, 55_944_196_476_296, 0, 12)]),
    (true, [(Op::Le, 36, 335_678_247_138, 0, 12), (Op::Ge, 24, 52_481_730_152, 0, 12)]),
    (true, [(Op::Le, 23, 2_456_946_598, 0, 12), (Op::Ge, 16, 1_804_032_915_518, 0, 12)]),
    (true, [(Op::Le, 4, -22_037_703_312, 0, 12), (Op::Ge, 16, 1_906_223_811_824, 0, 12)]),
    (false, [(Op::Ge, 14, 1_962_352_079_221, 0, 12), (Op::Le, 5, 391_630_717, 0, 12)]),
    (false, [(Op::Ge, 55, 76_610_575_342_271, 0, 12), (Op::Ge, 1, 13_438_071_751_687, 0, 12)]),
    (true, [(Op::Le, 23, 1_239_879_895, 0, 12), (Op::Eq, 37, 2, 0, 0)]),
    (false, [(Op::Ge, 22, -727_402_067, 0, 12), (Op::Le, 57, 719_948_712_472, 0, 12)]),
    (true, [(Op::Le, 34, -1_555_592_433, 0, 12), (Op::Ge, 56, 74_332_784_822_998, 0, 12)]),
    (false, [(Op::Ge, 43, 82_208_371_283_464, 0, 12), (Op::Le, 1, -10_610_519_151_485, 0, 12)]),
    (false, [(Op::Ge, 59, 960_335_550_175, 0, 10), (Op::Eq, 37, 11, 0, 0)]),
    (true, [(Op::Le, 58, 2_667_588_714_436, 0, 12), (Op::Eq, 37, 3, 0, 0)]),
    (true, [(Op::Le, 59, 5_251_600_440_171, 0, 12), (Op::Le, 62, 495_743_204, 0, 12)]),
    (true, [(Op::Le, 59, 13_103_119_286_977, 0, 12), (Op::Ge, 16, 2_255_084_993_412, 0, 12)]),
    (false, [(Op::Ge, 21, -409_020_996, 0, 12), (Op::Eq, 37, 12, 0, 0)]),
    (true, [(Op::Le, 36, 307_122_278_049, 0, 12), (Op::Ge, 51, 138_724_474, 0, 11)]),
    (false, [(Op::Ge, 58, 963_831_114_696, 0, 10), (Op::Le, 43, 33_955_352_912_075, 0, 12)]),
    (true, [(Op::Le, 56, 21_973_808_882_615, 0, 12), (Op::Le, 45, 577_761_317_438, 0, 12)]),
    (false, [(Op::Ge, 42, 88_271_737_232_917, 0, 12), (Op::Le, 47, 0, 0, 0)]),
    (true, [(Op::Le, 58, 12_958_361_968_728, 0, 12), (Op::Le, 65, -99_874_379_869, 0, 11)]),
    (false, [(Op::Ge, 14, 1_595_452_540_363, 0, 12), (Op::Le, 1, -1_081_483_750_837, 0, 12)]),
    (true, [(Op::Le, 13, 16_780_876_652, 0, 12), (Op::Eq, 37, 2, 0, 0)]),
    (true, [(Op::Le, 58, 6_452_676_568_325, 0, 12), (Op::Ge, 62, 17_899_964_951, 0, 12)]),
    (true, [(Op::Le, 4, -6_258_679_323, 0, 12), (Op::Ge, 42, 88_271_737_232_917, 0, 12)]),
    (false, [(Op::Ge, 32, 5, 0, 0), (Op::Ge, 0, 14_249_712_652_214, 0, 12)]),
    (true, [(Op::Ge, 49, 2, 0, 0), (Op::Ge, 41, 20_512_579_868, 0, 12)]),
    (true, [(Op::Le, 36, 335_678_247_138, 0, 12), (Op::Eq, 37, 0, 0, 0)]),
    (false, [(Op::Ge, 14, 1_722_377_357_787, 0, 12), (Op::Ge, 61, 15_903_107_859_896, 0, 12)]),
    (false, [
        (Op::Ge, 33, 5, 0, 0), (Op::Between, 54, 46_363_173_508_285, 54_618_381_008_027, 12),
    ]),
    (false, [(Op::Ge, 21, -1_005_628_718, 0, 12), (Op::Le, 62, 147_895_196, 0, 12)]),
    (true, [(Op::Le, 7, -9_512_380_842, 0, 12), (Op::Le, 0, -1_065_253_216_544, 0, 11)]),
    (true, [(Op::Le, 50, -3_848_934_884, 0, 12), (Op::Ge, 3, 1_023_461_413_393, 0, 12)]),
    (true, [(Op::Le, 14, -2_353_463_333_651, 0, 12), (Op::Eq, 37, 3, 0, 0)]),
    (true, [(Op::Le, 54, 2_287_928_198_245, 0, 11), (Op::Le, 16, 499_150_169_133, 0, 12)]),
    (false, [(Op::Ge, 36, 735_382_052_348, 0, 12), (Op::Eq, 37, 13, 0, 0)]),
    (true, [(Op::Le, 24, 5_802_879_975, 0, 12), (Op::Ge, 36, 735_382_052_348, 0, 12)]),
    (false, [(Op::Ge, 21, -2_077_937_651, 0, 12), (Op::Le, 11, -71_601_769_964_354, 0, 12)]),
    (true, [(Op::Le, 23, 905_802_239, 0, 12), (Op::Ge, 66, 5_828_474_127, 0, 12)]),
    (true, [(Op::Le, 58, 1_371_097_431_342, 0, 12), (Op::Le, 43, 21_227_386_631_273, 0, 12)]),
    (false, [(Op::Ge, 59, 89_373_499_384_241, 0, 12), (Op::Le, 58, 70_210_545_155_072, 0, 12)]),
    (false, [(Op::Ge, 32, 5, 0, 0), (Op::Le, 55, 345_377_351_189, 0, 10)]),
    (false, [(Op::Ge, 58, 83_042_281_112_572, 0, 12), (Op::Ge, 30, 11, 0, 0)]),
    (true, [(Op::Le, 34, -88_103_787, 0, 10), (Op::Le, 65, -99_874_379_869, 0, 11)]),
    (false, [(Op::Ge, 21, -2_433_279_017, 0, 12), (Op::Ge, 28, 1, 0, 0)]),
    (false, [(Op::Ge, 42, 88_271_737_232_917, 0, 12), (Op::Le, 35, 39_537_406_427, 0, 12)]),
    (true, [(Op::Le, 17, -2_920_351_157, 0, 12), (Op::Le, 63, 138_839_162, 0, 11)]),
    (true, [(Op::Le, 13, 56_247_011_082, 0, 12), (Op::Le, 30, 3, 0, 0)]),
    (true, [(Op::Le, 24, 2_090_782_791, 0, 12), (Op::Ge, 4, 828_634_832, 0, 12)]),
    (false, [(Op::Ge, 58, 87_582_148_468_611, 0, 12), (Op::Le, 13, 110_521_327_309, 0, 12)]),
    (true, [
        (Op::Le, 34, -88_103_787, 0, 10), (Op::Between, 8, -1_669_407_072, 1_904_120_338, 12),
    ]),
    (false, [(Op::Ge, 36, 712_764_986_117, 0, 12), (Op::Le, 62, 10_233_672, 0, 11)]),
    (false, [(Op::Ge, 36, 735_382_052_348, 0, 12), (Op::Ge, 6, 784_092_186_466, 0, 12)]),
    (true, [(Op::Le, 13, 160_650_711_145, 0, 12), (Op::Le, 5, 36_818_679, 0, 12)]),
    (true, [(Op::Le, 15, -169_192_343_888, 0, 11), (Op::Le, 65, -1_100_475_105_203, 0, 12)]),
    (false, [(Op::Ge, 7, 2_269_168_662, 0, 11), (Op::Eq, 37, 10, 0, 0)]),
    (true, [(Op::Le, 36, 218_185_817_798, 0, 12), (Op::Ge, 44, 1_320, 0, 0)]),
    (true, [(Op::Le, 59, 5_251_600_440_171, 0, 12), (Op::Ge, 14, -1_114_097_501_656, 0, 12)]),
    (false, [(Op::Ge, 59, 92_398_919_564_528, 0, 12), (Op::Le, 58, 78_724_397_723_401, 0, 12)]),
    (false, [(Op::Ge, 58, 89_541_313_522_713, 0, 12), (Op::Le, 36, 405_699_915_549, 0, 12)]),
    (true, [(Op::Le, 14, -2_353_463_333_651, 0, 12), (Op::Eq, 37, 5, 0, 0)]),
    (false, [(Op::Ge, 59, 87_588_360_619_543, 0, 12), (Op::Le, 42, 30_043_429_254_626, 0, 12)]),
    (false, [(Op::Ge, 36, 735_382_052_348, 0, 12), (Op::Ge, 10, 2_419_184_730_137, 0, 12)]),
    (false, [(Op::Ge, 7, 2_269_168_662, 0, 11), (Op::Le, 63, 3_091_757_798, 0, 12)]),
    (false, [(Op::Ge, 33, 4, 0, 0), (Op::Le, 64, 319_900_011_809, 0, 12)]),
    (true, [(Op::Le, 36, 335_678_247_138, 0, 12), (Op::Ge, 40, 2_443_200_772, 0, 12)]),
    (true, [(Op::Le, 51, -14_926_060_763, 0, 12), (Op::Ge, 29, 6, 0, 0)]),
    (false, [(Op::Ge, 22, -3_202_986_598, 0, 12), (Op::Le, 40, -710_524_492, 0, 12)]),
    (true, [(Op::Le, 13, 30_383_565_182, 0, 12), (Op::Ge, 62, 21_833_334_011, 0, 12)]),
    (true, [(Op::Le, 55, 20_878_329_763_064, 0, 12), (Op::Le, 65, -765_737_264_252, 0, 12)]),
    (true, [(Op::Le, 15, -1_397_952_097_938, 0, 12), (Op::Ge, 32, 5, 0, 0)]),
    (true, [(Op::Le, 59, 5_251_600_440_171, 0, 12), (Op::Ge, 50, -749_714_289, 0, 12)]),
    (true, [(Op::Le, 4, -13_135_821_846, 0, 12), (Op::Ge, 16, 2_080_444_997_831, 0, 12)]),
    (false, [(Op::Ge, 36, 682_488_787_105, 0, 12), (Op::Ge, 0, 14_249_712_652_214, 0, 12)]),
    (false, [(Op::Ge, 32, 5, 0, 0), (Op::Le, 46, -1_422_984_964_535, 0, 12)]),
    (true, [(Op::Le, 58, 2_667_588_714_436, 0, 12), (Op::Eq, 37, 9, 0, 0)]),
    (true, [(Op::Le, 59, 9_711_755_951_452, 0, 12), (Op::Le, 64, 357_082_553_591, 0, 12)]),
    (true, [(Op::Le, 24, 2_900_258_506, 0, 12), (Op::Ge, 66, 4_380_073_053, 0, 12)]),
    (true, [(Op::Le, 4, -13_135_821_846, 0, 12), (Op::Ge, 30, 10, 0, 0)]),
    (true, [(Op::Le, 13, 56_247_011_082, 0, 12), (Op::Ge, 51, 19_257_684_619, 0, 12)]),
    (true, [(Op::Le, 14, -1_334_336_613_744, 0, 12), (Op::Ge, 22, -3_202_986_598, 0, 12)]),
    (false, [(Op::Ge, 36, 712_764_986_117, 0, 12), (Op::Le, 42, 21_010_779_204_058, 0, 12)]),
    (false, [(Op::Ge, 58, 83_042_281_112_572, 0, 12), (Op::Le, 52, -3_871_656_787, 0, 12)]),
    (true, [(Op::Le, 55, 30_415_962_356_833, 0, 12), (Op::Ge, 36, 682_488_787_105, 0, 12)]),
    (true, [(Op::Le, 36, 426_292_967_876, 0, 12), (Op::Ge, 4, 21_420_937_506, 0, 12)]),
];

/// Rules on hourly BTC candles, drawn from five years of them.
#[derive(Debug)]
pub struct FiveYear70PctBtcH1Rules586 {
    pub ensemble: Ensemble,
}

impl FiveYear70PctBtcH1Rules586 {
    pub fn new(min_votes: u32) -> (r: FiveYear70PctBtcH1Rules586)
        ensures
            r.well_formed(),
            r.ensemble.is_fresh(min_votes),
    {
        FiveYear70PctBtcH1Rules586 { ensemble: Ensemble::new(min_votes) }
    }
}

impl Strategy for FiveYear70PctBtcH1Rules586 {
    open spec fn well_formed(&self) -> bool {
        self.ensemble.well_formed()
    }

    open spec fn title(&self) -> Seq<char> {
        STRATEGY_NAME@
    }

    open spec fn answers(
        &self,
        first: Seq<Candle>,
        candle: Candle,
        signal: Option<Signal>,
    ) -> bool {
        strategy::signals(
            signal,
            self.ensemble.call_after(first, candle, FEATURES@, RULES@),
            candle.close_time_ms,
            STRATEGY_NAME@,
        )
    }

    open spec fn reads_snapshots(&self) -> bool {
        false
    }

    open spec fn answers_snapshot(
        &self,
        snapshot: MicrostructureSnapshot,
        signal: Option<Signal>,
    ) -> bool {
        signal is None
    }

    open spec fn has_considered(&self, snapshot: MicrostructureSnapshot) -> bool {
        true
    }

    open spec fn summary_is(&self, summary: Option<MicrostructureDecisionSummary>) -> bool {
        summary is None
    }

    open spec fn shown_rsi(&self) -> Option<Binary64> {
        self.ensemble.meters.rsi7.get()
    }

    open spec fn shown_series(&self) -> Option<bool> {
        candle::same_color_streak_of(self.ensemble.window@, 3)
    }

    open spec fn shown_atr(&self) -> Option<Binary64> {
        self.ensemble.meters.atr14.atr
    }

    open spec fn shown_extras(&self) -> Seq<char> {
        ensemble::votes_text(self.ensemble.last_votes, self.ensemble.min_votes)
    }

    fn name(&self) -> (r: &str) {
        STRATEGY_NAME
    }

    fn on_closed_candle(&mut self, candle: &Candle) -> (r: Option<Signal>)
        ensures
            final(self).ensemble.has_seen(old(self).ensemble, *candle),
            ensemble::decided(final(self).ensemble, *candle, FEATURES@, RULES@),
            strategy::signals(
                r,
                ensemble::call_of(final(self).ensemble.last_votes, old(self).ensemble.min_votes),
                candle.close_time_ms,
                STRATEGY_NAME@,
            ),
    {
        let call: Option<Call> = self.ensemble.decide(candle, &FEATURES, &RULES);
        proof {
            assert forall|first: Seq<Candle>, c: Candle, s: Option<Signal>| #[trigger]
                self.answers(first, c, s) == old(self).answers(seq![*candle] + first, c, s) by {
                ensemble::lemma_later(
                    old(self).ensemble,
                    self.ensemble,
                    *candle,
                    first,
                    c,
                    FEATURES@,
                    RULES@,
                );
            }
        }
        strategy::signal_for(call, candle.close_time_ms, STRATEGY_NAME)
    }

    fn warmup(&mut self, candle: &Candle)
        ensures
            final(self).ensemble.has_seen(old(self).ensemble, *candle),
            final(self).ensemble.last_votes == old(self).ensemble.last_votes,
    {
        self.ensemble.feed(candle);
        proof {
            assert forall|first: Seq<Candle>, c: Candle, s: Option<Signal>| #[trigger]
                self.answers(first, c, s) == old(self).answers(seq![*candle] + first, c, s) by {
                ensemble::lemma_later(
                    old(self).ensemble,
                    self.ensemble,
                    *candle,
                    first,
                    c,
                    FEATURES@,
                    RULES@,
                );
            }
        }
    }

    fn requires_microstructure(&self) -> (r: bool) {
        false
    }

    fn on_microstructure_snapshot(&mut self, snapshot: &MicrostructureSnapshot) -> (r: Option<
        Signal,
    >) {
        None
    }

    fn last_microstructure_decision_summary(&self) -> (r: Option<
        MicrostructureDecisionSummary,
    >) {
        None
    }

    fn current_rsi(&self) -> (r: Option<Binary64>) {
        self.ensemble.meters.rsi7.get()
    }

    fn current_series(&self) -> (r: Option<bool>) {
        candle::same_color_streak(&self.ensemble.window, 3)
    }

    fn current_atr(&self) -> (r: Option<Binary64>) {
        self.ensemble.meters.atr14.raw()
    }

    fn candle_log_extras(&self) -> (r: String) {
        ensemble::describe_votes(self.ensemble.last_votes, self.ensemble.min_votes)
    }
}

} // verus!
