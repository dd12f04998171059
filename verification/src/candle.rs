//! Price candles and the windows of them that the strategies look at.

use std::collections::VecDeque;
use vstd::prelude::*;
use crate::binary64::Binary64;
use crate::exact;
use crate::exact::exact;

verus! {

/// One candle of a price series. Times are milliseconds since the Unix epoch, UTC.
#[derive(Clone, Copy, Debug)]
pub struct Candle {
    pub open_time_ms: i64,
    pub close_time_ms: i64,
    pub open: Binary64,
    pub high: Binary64,
    pub low: Binary64,
    pub close: Binary64,
    pub volume: Binary64,
    pub is_closed: bool,
}

/// A number that every candle carries.
#[derive(Clone, Copy, Debug, PartialEq, Eq, Structural)]
pub enum Field {
    Low,
    High,
    Close,
    Volume,
}

impl Candle {
    pub open spec fn field_spec(&self, field: Field) -> Binary64 {
        match field {
            Field::Low => self.low,
            Field::High => self.high,
            Field::Close => self.close,
            Field::Volume => self.volume,
        }
    }

    pub open spec fn rises_spec(&self) -> bool {
        self.open.less(self.close)
    }

    pub open spec fn falls_spec(&self) -> bool {
        self.close.less(self.open)
    }

    #[verifier::when_used_as_spec(field_spec)]
    pub fn field(&self, field: Field) -> (r: Binary64)
        ensures
            r == self.field_spec(field),
    {
        match field {
            Field::Low => self.low,
            Field::High => self.high,
            Field::Close => self.close,
            Field::Volume => self.volume,
        }
    }

    /// Whether the candle closes above its open.
    #[verifier::when_used_as_spec(rises_spec)]
    pub fn rises(&self) -> (r: bool)
        ensures
            r == self.rises_spec(),
    {
        self.open.less(self.close)
    }

    /// Whether the candle closes below its open.
    #[verifier::when_used_as_spec(falls_spec)]
    pub fn falls(&self) -> (r: bool)
        ensures
            r == self.falls_spec(),
    {
        self.close.less(self.open)
    }
}

/// The last `n` candles of a window, the newest first.
pub open spec fn newest_of(window: Seq<Candle>, n: int) -> Seq<Candle> {
    Seq::new(n as nat, |i: int| window[window.len() - 1 - i])
}

/// One number of every candle.
pub open spec fn column_of(candles: Seq<Candle>, field: Field) -> Seq<Binary64> {
    Seq::new(candles.len(), |i: int| candles[i].field_spec(field))
}

/// The window after one more candle, of which at most the last `max_len` stay.
pub open spec fn pushed(window: Seq<Candle>, candle: Candle, max_len: int) -> Seq<Candle> {
    let longer = window.push(candle);
    if longer.len() > max_len {
        longer.drop_first()
    } else {
        longer
    }
}

/// Appends a candle to a window and forgets the oldest one past `max_len`.
pub fn push_candle(window: &mut VecDeque<Candle>, candle: &Candle, max_len: usize)
    ensures
        final(window)@ == pushed(old(window)@, *candle, max_len as int),
{
    window.push_back(*candle);
    if window.len() > max_len {
        window.pop_front();
    }
    assert(window@ =~= pushed(old(window)@, *candle, max_len as int));
}

/// The last `n` candles, the newest first.
pub fn newest(window: &VecDeque<Candle>, n: usize) -> (r: Vec<Candle>)
    requires
        n <= window@.len(),
    ensures
        r@ == newest_of(window@, n as int),
{
    let mut r: Vec<Candle> = Vec::new();
    let len: usize = window.len();
    let mut i: usize = 0;
    while i < n
        invariant
            i <= n <= window@.len(),
            len == window@.len(),
            r@.len() == i,
            forall|j: int| 0 <= j < i ==> r@[j] == window@[len - 1 - j],
        decreases n - i,
    {
        r.push(window[len - 1 - i]);
        i = i + 1;
    }
    assert(r@ =~= newest_of(window@, n as int));
    r
}

/// `n` candles from `start` on, in the order of the window.
pub fn span(window: &VecDeque<Candle>, start: usize, n: usize) -> (r: Vec<Candle>)
    requires
        start + n <= window@.len(),
    ensures
        r@ == window@.subrange(start as int, start + n),
{
    let mut r: Vec<Candle> = Vec::new();
    let len: usize = window.len();
    let mut i: usize = 0;
    while i < n
        invariant
            i <= n,
            start + n <= len,
            len == window@.len(),
            r@ == window@.subrange(start as int, start + i),
        decreases n - i,
    {
        r.push(window[start + i]);
        i = i + 1;
        assert(r@ =~= window@.subrange(start as int, start + i));
    }
    r
}

/// One number of every candle.
pub fn column(candles: &Vec<Candle>, field: Field) -> (r: Vec<Binary64>)
    ensures
        r@ == column_of(candles@, field),
{
    let mut r: Vec<Binary64> = Vec::new();
    let mut i: usize = 0;
    while i < candles.len()
        invariant
            i <= candles@.len(),
            r@.len() == i,
            forall|j: int| 0 <= j < i ==> r@[j] == candles@[j].field_spec(field),
        decreases candles@.len() - i,
    {
        r.push(candles[i].field(field));
        i = i + 1;
    }
    assert(r@ =~= column_of(candles@, field));
    r
}

/// Whether a candle is green; `None` where it is neither green nor red.
pub open spec fn strict_green_of(c: Candle) -> Option<bool> {
    if c.rises() {
        Some(true)
    } else if c.falls() {
        Some(false)
    } else {
        None
    }
}

pub fn strict_green(candle: &Candle) -> (r: Option<bool>)
    ensures
        r == strict_green_of(*candle),
{
    if candle.rises() {
        Some(true)
    } else if candle.falls() {
        Some(false)
    } else {
        None
    }
}

/// The color that the last `minimum` candles share, if they do.
pub open spec fn same_color_streak_of(window: Seq<Candle>, minimum: int) -> Option<bool> {
    if window.len() < minimum || window.len() == 0 {
        None
    } else {
        let first = strict_green_of(window.last());
        let newest = newest_of(window, minimum);
        if first is Some && forall|i: int|
            0 <= i < minimum ==> strict_green_of(#[trigger] newest[i]) == first {
            first
        } else {
            None
        }
    }
}

pub fn same_color_streak(candles: &VecDeque<Candle>, minimum: usize) -> (r: Option<bool>)
    ensures
        r == same_color_streak_of(candles@, minimum as int),
{
    let len: usize = candles.len();
    if len < minimum || len == 0 {
        return None;
    }
    let first: bool = match strict_green(&candles[len - 1]) {
        Some(green) => green,
        None => {
            return None;
        },
    };
    let newest: Vec<Candle> = newest(candles, minimum);
    let mut i: usize = 0;
    while i < minimum
        invariant
            i <= minimum <= candles@.len(),
            newest@ == newest_of(candles@, minimum as int),
            0 < candles@.len(),
            strict_green_of(candles@.last()) == Some(first),
            forall|j: int| 0 <= j < i ==> strict_green_of(#[trigger] newest@[j]) == Some(first),
        decreases minimum - i,
    {
        let same: bool = match strict_green(&newest[i]) {
            Some(green) => green == first,
            None => false,
        };
        if !same {
            assert(strict_green_of(newest@[i as int]) != Some(first));
            return None;
        }
        i = i + 1;
    }
    Some(first)
}

/// The window after some more candles, of which at most the last `max_len` stay.
pub open spec fn window_after(window: Seq<Candle>, more: Seq<Candle>, max_len: int) -> Seq<Candle>
    decreases more.len(),
{
    if more.len() == 0 {
        window
    } else {
        window_after(pushed(window, more[0], max_len), more.drop_first(), max_len)
    }
}

/// Some more candles after one are that one and those.
pub proof fn lemma_window_after_one(
    window: Seq<Candle>,
    candle: Candle,
    more: Seq<Candle>,
    max_len: int,
)
    ensures
        window_after(window, seq![candle] + more, max_len) == window_after(
            pushed(window, candle, max_len),
            more,
            max_len,
        ),
{
    assert((seq![candle] + more).drop_first() =~= more);
}

/// A window never grows past its length, its newest candle is the one pushed last, and the others
/// are the newest of those that were there, in their order.
pub proof fn law_window_slides(window: Seq<Candle>, candle: Candle, max_len: int)
    requires
        window.len() <= max_len,
        max_len > 0,
    ensures
        pushed(window, candle, max_len).len() <= max_len,
        pushed(window, candle, max_len).last() == candle,
        forall|i: int|
            0 <= i < pushed(window, candle, max_len).len() - 1 ==> newest_of(
                pushed(window, candle, max_len),
                i + 2,
            )[i + 1] == #[trigger] newest_of(window, i + 1)[i],
{
}

/// A candle between two finite prices rises where it closes above its open, falls where it closes
/// below it, and has no color where it closes at it.
pub proof fn law_colors(c: Candle)
    requires
        c.open.is_finite(),
        c.close.is_finite(),
    ensures
        c.rises() <==> exact(c.open) < exact(c.close),
        c.falls() <==> exact(c.close) < exact(c.open),
        strict_green_of(c) == Some(true) <==> exact(c.open) < exact(c.close),
        strict_green_of(c) == Some(false) <==> exact(c.close) < exact(c.open),
        strict_green_of(c) is None <==> exact(c.close) == exact(c.open),
{
    exact::law_order_is_exact(c.open, c.close);
    exact::law_order_is_exact(c.close, c.open);
}

/// Whether the last `n` candles of a window all close above their opens.
pub open spec fn all_rise(window: Seq<Candle>, n: int) -> bool {
    forall|i: int|
        window.len() - n <= i < window.len() ==> exact((#[trigger] window[i]).open) < exact(
            window[i].close,
        )
}

/// Whether the last `n` candles of a window all close below their opens.
pub open spec fn all_fall(window: Seq<Candle>, n: int) -> bool {
    forall|i: int|
        window.len() - n <= i < window.len() ==> exact((#[trigger] window[i]).close) < exact(
            window[i].open,
        )
}

/// A streak is green exactly where the last candles are there and all close above their opens, and
/// red exactly where they all close below them.
pub proof fn law_streaks(window: Seq<Candle>, n: int)
    requires
        n > 0,
        forall|i: int|
            0 <= i < window.len() ==> (#[trigger] window[i]).open.is_finite()
                && window[i].close.is_finite(),
    ensures
        same_color_streak_of(window, n) == Some(true) <==> window.len() >= n && all_rise(window, n),
        same_color_streak_of(window, n) == Some(false) <==> window.len() >= n && all_fall(
            window,
            n,
        ),
{
    if window.len() >= n {
        let newest = newest_of(window, n);
        assert forall|i: int| 0 <= i < window.len() implies {
            &&& strict_green_of(#[trigger] window[i]) == Some(true) <==> exact(window[i].open)
                < exact(window[i].close)
            &&& strict_green_of(window[i]) == Some(false) <==> exact(window[i].close) < exact(
                window[i].open,
            )
        } by {
            law_colors(window[i]);
        }
        assert(newest[0] == window.last());
        assert forall|i: int| window.len() - n <= i < window.len() implies #[trigger] window[i]
            == newest[window.len() - 1 - i] by {}
        if same_color_streak_of(window, n) is Some {
            assert forall|i: int| window.len() - n <= i < window.len() implies strict_green_of(
                #[trigger] window[i],
            ) == same_color_streak_of(window, n) by {
                assert(strict_green_of(newest[window.len() - 1 - i]) == strict_green_of(
                    window.last(),
                ));
            }
            let k = window.len() - 1;
            assert(strict_green_of(window[k]) is Some);
        }
        if all_rise(window, n) || all_fall(window, n) {
            assert(strict_green_of(window[window.len() - 1]) is Some);
            assert forall|i: int| 0 <= i < n implies strict_green_of(#[trigger] newest[i])
                == strict_green_of(window.last()) by {
                assert(newest[i] == window[window.len() - 1 - i]);
            }
        }
    }
}

/// The end of a row of candles, of at most `n`.
pub open spec fn end_of(candles: Seq<Candle>, n: int) -> Seq<Candle> {
    if candles.len() <= n {
        candles
    } else {
        candles.skip(candles.len() - n)
    }
}

/// A window that has seen a row of candles holds the end of what it held and the row.
pub proof fn law_window_is_the_end(window: Seq<Candle>, more: Seq<Candle>, n: int)
    requires
        0 < n,
        window.len() <= n,
    ensures
        window_after(window, more, n) =~= end_of(window + more, n),
    decreases more.len(),
{
    if more.len() == 0 {
        assert(window + more =~= window);
    } else {
        let next = pushed(window, more[0], n);
        let rest = more.drop_first();
        law_window_is_the_end(next, rest, n);
        assert(end_of(next + rest, n) =~= end_of(window + more, n));
    }
}

/// One more candle.
pub proof fn law_pushed_is_the_end(candles: Seq<Candle>, candle: Candle, n: int)
    requires
        0 < n,
    ensures
        pushed(end_of(candles, n), candle, n) =~= end_of(candles.push(candle), n),
{
}

} // verus!
