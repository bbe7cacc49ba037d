//! Frame rates as exact fractions.

use vstd::prelude::*;

verus! {

/// Nanoseconds in a second.
pub const NANOS_PER_SEC: u128 = 1_000_000_000;

/// A span below this is too short to measure a rate from.
pub const SHORTEST_MEASURED_SPAN: u128 = 50_000_000;

/// A rate in frames per second: `num / den`.
#[derive(Debug, Clone, Copy, PartialEq, Eq, Structural)]
pub struct FrameRate {
    pub num: u128,
    pub den: u128,
}

/// `num / den` to the nearest whole number, halves up.
pub open spec fn nearest(num: nat, den: nat) -> nat {
    num / den + (if 2 * (num % den) >= den {
        1nat
    } else {
        0nat
    })
}

/// The nearest whole number is within half of the fraction.
pub proof fn nearest_is_within_half(num: nat, den: nat)
    requires
        den > 0,
    ensures
        2 * den * nearest(num, den) <= 2 * num + den,
        2 * num + den < 2 * den * nearest(num, den) + 2 * den,
{
    let n = num as int;
    let d = den as int;
    let q = n / d;
    let r = n % d;
    vstd::arithmetic::div_mod::lemma_fundamental_div_mod(n, d);
    vstd::arithmetic::div_mod::lemma_mod_bound(n, d);
    assert(2 * d * q == 2 * (d * q) && 2 * d * (q + 1) == 2 * (d * q) + 2 * d)
        by (nonlinear_arith);
}

/// A larger fraction has no smaller nearest whole number.
pub proof fn nearest_keeps_order(a: nat, b: nat, den: nat)
    requires
        a <= b,
        den > 0,
    ensures
        nearest(a, den) <= nearest(b, den),
{
    nearest_is_within_half(a, den);
    nearest_is_within_half(b, den);
    let x = nearest(a, den);
    let y = nearest(b, den);
    assert(x <= y) by (nonlinear_arith)
        requires
            a <= b,
            den > 0,
            2 * den * x <= 2 * a + den,
            2 * b + den < 2 * den * y + 2 * den,
    ;
}

/// `num / den` to the nearest whole number, halves up.
pub fn round_div(num: u128, den: u128) -> (res: u128)
    requires
        den > 0,
    ensures
        res == nearest(num as nat, den as nat),
{
    let q: u128 = num / den;
    let r: u128 = num % den;
    let up: bool = r >= den - r;
    proof {
        let n = num as int;
        let d = den as int;
        assert(n == d * q + r) by {
            vstd::arithmetic::div_mod::lemma_fundamental_div_mod(n, d);
        }
        assert(0 <= r < d) by {
            vstd::arithmetic::div_mod::lemma_mod_bound(n, d);
        }
        if up {
            assert(q + 1 <= u128::MAX) by (nonlinear_arith)
                requires
                    n == d * q + r,
                    n <= u128::MAX,
                    r >= d - r,
                    r < d,
                    d > 0,
                    q >= 0,
            ;
        }
    }
    if up {
        q + 1
    } else {
        q
    }
}

impl FrameRate {
    /// A rate has a denominator.
    pub open spec fn wf(self) -> bool {
        self.den > 0
    }

    /// At least one frame per second.
    pub open spec fn one_or_more(self) -> bool {
        self.num >= self.den
    }

    /// The rate `num / den`, or none where `den` is zero.
    pub fn new(num: u128, den: u128) -> (res: Option<FrameRate>)
        ensures
            res is Some <==> den > 0,
            res matches Some(rate) ==> rate == (FrameRate { num, den }) && rate.wf(),
    {
        if den == 0 {
            None
        } else {
            Some(FrameRate { num, den })
        }
    }

    /// A whole number of frames per second.
    pub fn whole(fps: u64) -> (res: FrameRate)
        ensures
            res == (FrameRate { num: fps as u128, den: 1 }),
            res.wf(),
            nearest(res.num as nat, res.den as nat) == fps,
    {
        FrameRate { num: fps as u128, den: 1 }
    }

    /// The rate to the nearest whole frame per second, from 1 to 240.
    pub open spec fn whole_cap(self) -> nat {
        let n = nearest(self.num as nat, self.den as nat);
        if n < 1 {
            1
        } else if n > 240 {
            240
        } else {
            n
        }
    }

    /// The rate to the nearest whole frame per second, from 1 to 240.
    pub fn rounded(self) -> (res: u64)
        requires
            self.wf(),
        ensures
            res == self.whole_cap(),
            1 <= res <= 240,
    {
        let n: u128 = round_div(self.num, self.den);
        if n < 1 {
            1
        } else if n > 240 {
            240
        } else {
            n as u64
        }
    }
}

/// Whether `pictures` in `span` nanoseconds make a rate from 5 to 240 frames per second,
/// measured over long enough a span.
pub open spec fn measurable(pictures: nat, span: nat) -> bool {
    &&& pictures >= 2
    &&& span >= SHORTEST_MEASURED_SPAN
    &&& 5 * span <= pictures * NANOS_PER_SEC <= 240 * span
}

/// The rate at which `pictures` in `span` nanoseconds are to be played: their own, where it can
/// be measured, else the fallback, else 72.
pub open spec fn playback_rate(pictures: u64, span: u128, fallback: Option<FrameRate>) -> FrameRate {
    if measurable(pictures as nat, span as nat) {
        FrameRate { num: (pictures * NANOS_PER_SEC) as u128, den: span }
    } else {
        match fallback {
            Some(rate) if rate.one_or_more() => rate,
            _ => FrameRate { num: 72, den: 1 },
        }
    }
}

/// The rate that a remux gives to `pictures` that were captured over `span` nanoseconds.
/// `fallback` is none where the configured rate is not a finite number.
pub fn mux_fps_from_pictures(pictures: u64, span: u128, fallback: Option<FrameRate>) -> (res:
    FrameRate)
    requires
        fallback matches Some(rate) ==> rate.wf(),
    ensures
        res == playback_rate(pictures, span, fallback),
        res.wf() && res.one_or_more(),
        measurable(pictures as nat, span as nat) ==> res.num * span == pictures * NANOS_PER_SEC
            * res.den,
        pictures >= 2 && span >= 50_000_000 && 5 * span <= pictures * 1_000_000_000 <= 240 * span
            ==> res.num == pictures * 1_000_000_000 && res.den == span,
        !(pictures >= 2 && span >= 50_000_000 && 5 * span <= pictures * 1_000_000_000 <= 240 * span)
            ==> (match fallback {
            Some(rate) => res == (if rate.num >= rate.den {
                rate
            } else {
                FrameRate { num: 72, den: 1 }
            }),
            None => res == (FrameRate { num: 72, den: 1 }),
        }),
{
    let frames: u128 = pictures as u128 * NANOS_PER_SEC;
    if pictures >= 2 && span >= SHORTEST_MEASURED_SPAN && span <= frames && 5 * span <= frames
        && frames <= 240 * span {
        return FrameRate { num: frames, den: span };
    }
    match fallback {
        Some(rate) => {
            if rate.num >= rate.den {
                return rate;
            }
        },
        None => {},
    }
    FrameRate { num: 72, den: 1 }
}

/// A take whose rate can be measured plays as long as it lasted: its pictures, shown at the rate
/// that it is given, fill its span exactly.
pub proof fn measured_takes_keep_their_length(pictures: u64, span: u128, fallback: Option<FrameRate>)
    requires
        measurable(pictures as nat, span as nat),
    ensures
        ({
            let rate = playback_rate(pictures, span, fallback);
            pictures * rate.den * NANOS_PER_SEC == span * rate.num
        }),
{
    assert(pictures * span * NANOS_PER_SEC == span * (pictures * NANOS_PER_SEC)) by (nonlinear_arith);
}

/// Two pictures or more, over 50 ms or more, at 5 to 240 of them a second, are shown at their own
/// rate: as many seconds of pictures as they were captured over.
pub proof fn pictures_are_shown_at_their_own_rate(
    pictures: u64,
    span: u128,
    fallback: Option<FrameRate>,
)
    requires
        pictures >= 2,
        span >= 50_000_000,
        5 * span <= pictures * 1_000_000_000,
        pictures * 1_000_000_000 <= 240 * span,
    ensures
        ({
            let rate = playback_rate(pictures, span, fallback);
            &&& rate.den > 0
            &&& pictures * rate.den * 1_000_000_000 == span * rate.num
        }),
{
    measured_takes_keep_their_length(pictures, span, fallback);
}

/// All other pictures are shown at the rate to fall back on where it is 1 or more, else at 72.
pub proof fn other_pictures_fall_back(pictures: u64, span: u128, fallback: Option<FrameRate>)
    requires
        pictures < 2 || span < 50_000_000 || pictures * 1_000_000_000 < 5 * span || pictures
            * 1_000_000_000 > 240 * span,
    ensures
        fallback matches Some(rate) ==> rate.num >= rate.den ==> playback_rate(
            pictures,
            span,
            fallback,
        ) == rate,
        fallback matches Some(rate) ==> rate.num < rate.den ==> playback_rate(
            pictures,
            span,
            fallback,
        ) == (FrameRate { num: 72, den: 1 }),
        fallback is None ==> playback_rate(pictures, span, fallback) == (FrameRate {
            num: 72,
            den: 1,
        }),
{
}

/// A rate is rounded to the nearest whole number, halves up, but never below 1 nor above 240.
pub proof fn caps_are_whole_rates(rate: FrameRate)
    requires
        rate.den > 0,
    ensures
        1 <= rate.whole_cap() <= 240,
        1 < rate.whole_cap() ==> 2 * rate.den * rate.whole_cap() <= 2 * rate.num + rate.den,
        rate.whole_cap() < 240 ==> 2 * rate.num + rate.den < 2 * rate.den * (rate.whole_cap() + 1),
{
    nearest_is_within_half(rate.num as nat, rate.den as nat);
    let n = nearest(rate.num as nat, rate.den as nat) as int;
    let d = rate.den as int;
    assert(2 * d * (n + 1) == 2 * d * n + 2 * d) by (nonlinear_arith);
    if n < 1 {
        assert(2 * d * 2 >= 2 * d * (n + 1)) by (nonlinear_arith)
            requires
                n < 1,
                d > 0,
        ;
    }
    if n > 240 {
        assert(2 * d * 240 <= 2 * d * n) by (nonlinear_arith)
            requires
                n > 240,
                d > 0,
        ;
    }
}

} // verus!
