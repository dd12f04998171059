//! Snapshots of market microstructure: a closed candle and what the other markets did around it.

use vstd::prelude::*;
use crate::binary64::Binary64;
use crate::candle::Candle;

verus! {

/// A number that a snapshot may carry.
#[derive(Clone, Copy, Debug, PartialEq, Eq, Structural)]
pub enum Feature {
    FutBtcusdtM1CloseLocation,
    FutBtcusdtM1GreenRatio,
    FutBtcusdtM1MinuteReturnLag2,
    FutBtcusdtM1MinuteReturnLag3,
    FutBtcusdtM1MinuteTakerLag2,
    FutBtcusdtM1SegmentReturn2,
    FutBtcusdtM1SegmentReturnAcceleration,
    FutBtcusdtM1SegmentTakerImbalance2,
    FutEthusdtM1BlockReturn,
    FutEthusdtM1CloseLocation,
    FutEthusdtM1MinuteReturnLag1,
    FutEthusdtM1MinuteReturnLag3,
    FutEthusdtM1SegmentReturn2,
    FutEthusdtM1SegmentReturnAcceleration,
    FutEthusdtM1SegmentTakerAcceleration,
    FutEthusdtM1SegmentTakerImbalance2,
    IndexEthusdtReturn1,
    MarkBtcusdtCloseLocation,
    MarkEthusdtReturn1,
    MarkEthusdtReturn3,
    OiEthusdtValueChange6,
    OiEthusdtValueChange12,
    SignalBreakoutHigh20,
    SignalCloseEma8Atr,
    SignalEma8Ema21Atr,
    SignalGreenRatio3,
    SignalGreenRatio6,
    SignalGreenRatio12,
    SignalReturn6,
    SignalReturn12,
    SignalStoch14,
    SignalTransitionRatio3,
    SignalTransitionRatio12,
    TargetEthusdPerpM1BlockReturn,
    TargetEthusdPerpM1GreenCount,
    TargetEthusdPerpM1MinuteReturnLag2,
    TargetEthusdPerpM1SegmentReturn2,
    TargetEthusdPerpM1SegmentTakerImbalance1,
    TargetEthusdPerpM1SegmentTakerImbalance2,
}

/// A closed candle with the numbers read around it.
#[derive(Debug)]
pub struct MicrostructureSnapshot {
    pub candle: Candle,
    /// The numbers read so far, in the order in which they came.
    pub values: Vec<(Feature, Binary64)>,
    /// Why the snapshot is not complete, where it is not.
    pub gap: Option<String>,
}

/// The number last read for a feature.
pub open spec fn value_of(values: Seq<(Feature, Binary64)>, feature: Feature) -> Option<Binary64>
    decreases values.len(),
{
    if values.len() == 0 {
        None
    } else if values.last().0 == feature {
        Some(values.last().1)
    } else {
        value_of(values.drop_last(), feature)
    }
}

impl MicrostructureSnapshot {
    pub fn new(candle: Candle, values: Vec<(Feature, Binary64)>, gap: Option<String>) -> (r:
        MicrostructureSnapshot)
        ensures
            r.candle == candle,
            r.values == values,
            r.gap == gap,
    {
        MicrostructureSnapshot { candle, values, gap }
    }

    /// The number last read for a feature.
    pub fn value(&self, feature: Feature) -> (r: Option<Binary64>)
        ensures
            r == value_of(self.values@, feature),
    {
        let mut i: usize = self.values.len();
        assert(self.values@.take(i as int) =~= self.values@);
        while i > 0
            invariant
                i <= self.values@.len(),
                value_of(self.values@, feature) == value_of(self.values@.take(i as int), feature),
            decreases i,
        {
            i = i - 1;
            assert(self.values@.take(i + 1).drop_last() =~= self.values@.take(i as int));
            if self.values[i].0 == feature {
                return Some(self.values[i].1);
            }
        }
        None
    }
}

/// What is known of a feature is the number that was read for it last; nothing is known only where
/// none was read.
pub proof fn law_last_reading_counts(values: Seq<(Feature, Binary64)>, feature: Feature) -> (k: int)
    ensures
        value_of(values, feature) matches Some(value) ==> {
            &&& 0 <= k < values.len()
            &&& values[k] == (feature, value)
            &&& forall|i: int| k < i < values.len() ==> (#[trigger] values[i]).0 != feature
        },
        value_of(values, feature) is None <==> forall|i: int|
            0 <= i < values.len() ==> (#[trigger] values[i]).0 != feature,
    decreases values.len(),
{
    if values.len() == 0 {
        0
    } else {
        let fewer = values.drop_last();
        let last = values.len() - 1;
        assert(values[last] == values.last());
        let j = law_last_reading_counts(fewer, feature);
        assert forall|i: int| 0 <= i < fewer.len() implies #[trigger] fewer[i] == values[i] by {}
        if values.last().0 == feature {
            last
        } else {
            if value_of(fewer, feature) is Some {
                assert(values[j].0 == feature);
                assert forall|i: int| j < i < values.len() implies (#[trigger] values[i]).0
                    != feature by {
                    if i < last {
                        assert(fewer[i].0 != feature);
                    }
                }
            } else {
                assert forall|i: int| 0 <= i < values.len() implies (#[trigger] values[i]).0
                    != feature by {
                    if i < last {
                        assert(fewer[i].0 != feature);
                    }
                }
            }
            j
        }
    }
}

} // verus!
