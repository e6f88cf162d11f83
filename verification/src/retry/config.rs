//! Backoff parameters.
//!
//! Delays are whole milliseconds; the multiplier and the jitter are given in
//! thousandths, so that a multiplier of 2 is 2000 and a jitter of a tenth
//! is 100.
//!
//! The delay before the attempt that follows `k` failed ones is
//! `min(max_delay, initial_delay * multiplier^k)`, rounded down to a whole
//! millisecond once, at the end. To get there the fraction is carried from
//! one power to the next in full, as digits in base 1000.

use vstd::prelude::*;

verus! {

/// The parameters of a retry policy, as plain numbers.
pub struct RetryConfigView {
    /// Delay before the second attempt, in milliseconds.
    pub initial_delay: nat,
    /// The delay never grows beyond this, in milliseconds.
    pub max_delay: nat,
    /// Factor from one delay to the next, in thousandths; at least 1000.
    pub multiplier: nat,
    /// The share of a delay by which it may be moved either way, in
    /// thousandths; at most 1000.
    pub jitter: nat,
    /// How many failed attempts end the stream; `None` for no limit.
    pub max_attempts: Option<u32>,
}

impl RetryConfigView {
    /// The multiplier does not shrink delays, and the jitter is at most the
    /// whole delay.
    pub open spec fn wf(self) -> bool {
        &&& self.multiplier >= 1000
        &&& self.jitter <= 1000
        &&& self.initial_delay <= u64::MAX
        &&& self.max_delay <= u64::MAX
        &&& self.multiplier <= u64::MAX
    }
}

/// The smaller of two numbers.
pub open spec fn least(a: nat, b: nat) -> nat {
    if a <= b {
        a
    } else {
        b
    }
}

/// `base` to the power of `exponent`.
pub open spec fn power(base: nat, exponent: nat) -> nat
    decreases exponent,
{
    if exponent == 0 {
        1
    } else {
        base * power(base, (exponent - 1) as nat)
    }
}

/// The delay before the attempt that follows `attempt` failed ones, without
/// jitter and without the cap: `initial_delay` times the multiplier to the
/// power of `attempt`, rounded down to a whole millisecond.
pub open spec fn spec_uncapped_delay(c: RetryConfigView, attempt: nat) -> nat {
    (c.initial_delay * power(c.multiplier, attempt)) / power(1000, attempt)
}

/// The delay before the attempt that follows `attempt` failed ones, without
/// jitter: `min(max_delay, initial_delay * multiplier^attempt)`, in whole
/// milliseconds.
pub open spec fn spec_nominal_delay(c: RetryConfigView, attempt: nat) -> nat {
    least(c.max_delay, spec_uncapped_delay(c, attempt))
}

/// The number below one that the digits of `digits` spell in base 1000,
/// least significant digit first, as a count of the smallest unit.
pub open spec fn fraction_value(digits: Seq<u16>) -> nat
    decreases digits.len(),
{
    if digits.len() == 0 {
        0
    } else {
        fraction_value(digits.drop_last()) + digits.last() as nat * power(
            1000,
            (digits.len() - 1) as nat,
        )
    }
}

/// Whether every digit of `digits` is a digit of base 1000.
pub open spec fn base_1000(digits: Seq<u16>) -> bool {
    forall|i: int| 0 <= i < digits.len() ==> #[trigger] digits[i] < 1000
}

/// The most by which jitter may move the delay `nominal` either way.
pub open spec fn spec_jitter_span(nominal: nat, jitter: nat) -> nat {
    nominal * jitter / 1000
}

/// The delay `nominal` moved by jitter, where `sample` is any number, drawn
/// at random by the caller: the samples are spread evenly over the
/// `2 * span + 1` delays from `nominal - span` to `nominal + span`. A delay
/// that would not fit 64 bits is `u64::MAX`.
pub open spec fn spec_jittered(nominal: nat, jitter: nat, sample: nat) -> nat {
    let span = spec_jitter_span(nominal, jitter);
    least(u64::MAX as nat, (nominal - span + sample % (2 * span + 1)) as nat)
}

/// Backoff parameters for establishing a connection and for reconnecting.
#[derive(Debug, Copy, Clone, Eq, PartialEq)]
pub struct RetryConfig {
    initial_delay_ms: u64,
    max_delay_ms: u64,
    multiplier_permille: u64,
    jitter_permille: u64,
    max_attempts: Option<u32>,
}

impl View for RetryConfig {
    type V = RetryConfigView;

    closed spec fn view(&self) -> RetryConfigView {
        RetryConfigView {
            initial_delay: self.initial_delay_ms as nat,
            max_delay: self.max_delay_ms as nat,
            multiplier: self.multiplier_permille as nat,
            jitter: self.jitter_permille as nat,
            max_attempts: self.max_attempts,
        }
    }
}

/// The parameters that a policy has when none are given: 200 ms at first,
/// 10 s at most, doubling, a tenth of jitter, no limit on attempts.
pub open spec fn default_retry() -> RetryConfigView {
    RetryConfigView {
        initial_delay: 200,
        max_delay: 10_000,
        multiplier: 2000,
        jitter: 100,
        max_attempts: None,
    }
}

impl Default for RetryConfig {
    fn default() -> (c: Self)
        ensures
            c@ == default_retry(),
            c@.wf(),
    {
        RetryConfig {
            initial_delay_ms: 200,
            max_delay_ms: 10_000,
            multiplier_permille: 2000,
            jitter_permille: 100,
            max_attempts: None,
        }
    }
}

impl RetryConfig {
    #[verifier::type_invariant]
    closed spec fn inv(self) -> bool {
        self.multiplier_permille >= 1000 && self.jitter_permille <= 1000
    }

    /// A policy with the given parameters, or `None` where the multiplier is
    /// under 1000 thousandths or the jitter over 1000.
    pub fn new(
        initial_delay_ms: u64,
        max_delay_ms: u64,
        multiplier_permille: u64,
        jitter_permille: u64,
        max_attempts: Option<u32>,
    ) -> (r: Option<Self>)
        ensures
            r is Some <==> multiplier_permille >= 1000 && jitter_permille <= 1000,
            r matches Some(c) ==> c@.wf() && c@ == (RetryConfigView {
                initial_delay: initial_delay_ms as nat,
                max_delay: max_delay_ms as nat,
                multiplier: multiplier_permille as nat,
                jitter: jitter_permille as nat,
                max_attempts,
            }),
    {
        if multiplier_permille >= 1000 && jitter_permille <= 1000 {
            Some(
                RetryConfig {
                    initial_delay_ms,
                    max_delay_ms,
                    multiplier_permille,
                    jitter_permille,
                    max_attempts,
                },
            )
        } else {
            None
        }
    }

    /// How many failed attempts end the stream; `None` for no limit.
    pub fn max_attempts(&self) -> (m: Option<u32>)
        ensures
            m == self@.max_attempts,
            self@.wf(),
    {
        proof {
            use_type_invariant(self);
        }
        self.max_attempts
    }

    /// The delay before the attempt that follows `attempt` failed ones, in
    /// milliseconds and without jitter.
    pub fn nominal_delay(&self, attempt: u32) -> (d: u64)
        ensures
            d == spec_nominal_delay(self@, attempt as nat),
            d <= self@.max_delay,
            self@.wf(),
    {
        proof {
            use_type_invariant(self);
            lemma_uncapped_start(self@);
            lemma_uncapped_ordered(self@, 0, attempt as nat);
        }
        let initial = self.initial_delay_ms;
        let max = self.max_delay_ms;
        let multiplier = self.multiplier_permille;
        if initial >= max {
            return max;
        }
        if initial == 0 {
            proof {
                lemma_uncapped_of_zero(self@, attempt as nat);
            }
            return 0;
        }
        if multiplier == 1000 {
            proof {
                lemma_uncapped_of_one(self@, attempt as nat);
            }
            return initial;
        }
        let mut whole: u64 = initial;
        let mut fraction: Vec<u16> = Vec::new();
        let mut k: u32 = 0;
        while k < attempt
            invariant
                k <= attempt,
                self@.wf(),
                initial == self@.initial_delay,
                max == self@.max_delay,
                multiplier == self@.multiplier,
                whole < max,
                fraction@.len() == k,
                base_1000(fraction@),
                fraction_value(fraction@) < power(1000, k as nat),
                whole * power(1000, k as nat) + fraction_value(fraction@) == initial * power(
                    multiplier as nat,
                    k as nat,
                ),
            decreases attempt - k,
        {
            let (low, carry) = scale(&fraction, multiplier);
            assert((whole as u128) * (multiplier as u128) + (carry as u128) <= u128::MAX) by (nonlinear_arith)
                requires
                    whole <= 0xffff_ffff_ffff_ffffu64,
                    multiplier <= 0xffff_ffff_ffff_ffffu64,
                    carry < multiplier,
            ;
            let scaled: u128 = (whole as u128) * (multiplier as u128) + (carry as u128);
            let next: u128 = scaled / 1000;
            let top: u16 = (scaled % 1000) as u16;
            let ghost unit = power(1000, k as nat);
            let ghost digits = low@.push(top);
            proof {
                assert(digits.drop_last() =~= low@);
                assert(fraction_value(digits) == fraction_value(low@) + top as nat * unit);
                assert(power(1000, (k + 1) as nat) == 1000 * unit);
                assert(power(multiplier as nat, (k + 1) as nat) == multiplier * power(
                    multiplier as nat,
                    k as nat,
                ));
                lemma_carry_over(
                    whole as nat,
                    fraction_value(fraction@),
                    unit,
                    multiplier as nat,
                    fraction_value(low@),
                    carry as nat,
                    next as nat,
                    top as nat,
                    (initial * power(multiplier as nat, k as nat)) as nat,
                );
                assert(initial * power(multiplier as nat, (k + 1) as nat) == (initial * power(
                    multiplier as nat,
                    k as nat,
                )) * multiplier) by (nonlinear_arith)
                    requires
                        power(multiplier as nat, (k + 1) as nat) == multiplier * power(
                            multiplier as nat,
                            k as nat,
                        ),
                ;
                lemma_whole_part(self@, (k + 1) as nat, next as nat, fraction_value(digits));
            }
            if next >= max as u128 {
                proof {
                    lemma_uncapped_ordered(self@, (k + 1) as nat, attempt as nat);
                }
                return max;
            }
            fraction = low;
            fraction.push(top);
            whole = next as u64;
            k = k + 1;
        }
        proof {
            lemma_whole_part(self@, attempt as nat, whole as nat, fraction_value(fraction@));
        }
        whole
    }

    /// The delay `nominal` moved by jitter. `sample` is any number, drawn at
    /// random by the caller; whatever it is, the result is within the
    /// jitter's share of `nominal`.
    pub fn jittered(&self, nominal: u64, sample: u64) -> (actual: u64)
        ensures
            actual == spec_jittered(nominal as nat, self@.jitter, sample as nat),
            nominal - spec_jitter_span(nominal as nat, self@.jitter) <= actual,
            actual <= nominal + spec_jitter_span(nominal as nat, self@.jitter),
            spec_jitter_span(nominal as nat, self@.jitter) <= nominal,
    {
        proof {
            use_type_invariant(self);
            lemma_jitter_span(nominal as nat, self@.jitter);
        }
        assert((nominal as u128) * (self.jitter_permille as u128) <= u128::MAX) by (nonlinear_arith)
            requires
                nominal <= u64::MAX,
                self.jitter_permille <= 1000,
        ;
        let span: u128 = (nominal as u128) * (self.jitter_permille as u128) / 1000;
        let low: u128 = nominal as u128 - span;
        let width: u128 = 2 * span + 1;
        let moved: u128 = low + (sample as u128) % width;
        if moved >= u64::MAX as u128 {
            u64::MAX
        } else {
            moved as u64
        }
    }
}

/// Jitter of at most the whole moves a delay by at most the delay.
pub proof fn lemma_jitter_span(nominal: nat, jitter: nat)
    requires
        jitter <= 1000,
    ensures
        spec_jitter_span(nominal, jitter) <= nominal,
        spec_jitter_span(nominal, jitter) * 1000 <= nominal * jitter,
{
    assert(nominal * jitter <= nominal * 1000) by (nonlinear_arith)
        requires
            jitter <= 1000,
    ;
    assert((nominal * jitter) / 1000 <= nominal) by (nonlinear_arith)
        requires
            nominal * jitter <= nominal * 1000,
    ;
    assert((nominal * jitter) / 1000 * 1000 <= nominal * jitter) by (nonlinear_arith);
}

/// Jitter bound: whatever the sample, the moved delay differs from the
/// nominal one by at most the jitter's share of it.
pub proof fn lemma_jitter_bound(nominal: nat, jitter: nat, sample: nat)
    requires
        jitter <= 1000,
        nominal <= u64::MAX,
    ensures
        nominal - spec_jitter_span(nominal, jitter) <= spec_jittered(nominal, jitter, sample),
        spec_jittered(nominal, jitter, sample) <= nominal + spec_jitter_span(nominal, jitter),
        spec_jitter_span(nominal, jitter) * 1000 <= nominal * jitter,
{
    lemma_jitter_span(nominal, jitter);
}

/// The digits of `digits` times `factor`: the digits of the product that
/// stay below the unit, and what is carried over it. With `n` digits,
/// `low + carry * 1000^n == digits * factor`.
fn scale(digits: &Vec<u16>, factor: u64) -> (r: (Vec<u16>, u64))
    requires
        base_1000(digits@),
        factor >= 1,
    ensures
        r.0@.len() == digits@.len(),
        base_1000(r.0@),
        fraction_value(r.0@) < power(1000, digits@.len()),
        r.1 < factor,
        fraction_value(r.0@) + r.1 * power(1000, digits@.len()) == fraction_value(digits@) * factor,
{
    let mut low: Vec<u16> = Vec::new();
    let mut carry: u64 = 0;
    let n = digits.len();
    let mut i: usize = 0;
    assert(digits@.subrange(0, 0) =~= Seq::<u16>::empty());
    while i < n
        invariant
            i <= n,
            n == digits@.len(),
            base_1000(digits@),
            factor >= 1,
            low@.len() == i,
            base_1000(low@),
            carry < factor,
            fraction_value(low@) < power(1000, i as nat),
            fraction_value(low@) + carry * power(1000, i as nat) == fraction_value(
                digits@.subrange(0, i as int),
            ) * factor,
        decreases n - i,
    {
        let digit: u16 = digits[i];
        assert(digit < 1000);
        assert((digit as u128) * (factor as u128) <= 999 * 0xffff_ffff_ffff_ffffu128
            && (digit as u128) * (factor as u128) + (carry as u128) < 1000 * (factor as u128))
            by (nonlinear_arith)
            requires
                digit <= 999,
                factor <= 0xffff_ffff_ffff_ffffu64,
                carry < factor,
        ;
        let product: u128 = (digit as u128) * (factor as u128) + (carry as u128);
        let kept: u16 = (product % 1000) as u16;
        let over: u64 = (product / 1000) as u64;
        proof {
            let unit = power(1000, i as nat);
            let before = digits@.subrange(0, i as int);
            let after = digits@.subrange(0, i + 1);
            assert(after.drop_last() =~= before);
            assert(after.last() == digit);
            assert(fraction_value(after) == fraction_value(before) + digit as nat * unit);
            let grown = low@.push(kept);
            assert(grown.drop_last() =~= low@);
            assert(fraction_value(grown) == fraction_value(low@) + kept as nat * unit);
            assert(power(1000, (i + 1) as nat) == 1000 * unit);
            lemma_scale_step(
                fraction_value(low@),
                carry as nat,
                unit,
                fraction_value(before),
                factor as nat,
                digit as nat,
                kept as nat,
                over as nat,
            );
        }
        low.push(kept);
        carry = over;
        i = i + 1;
    }
    assert(digits@.subrange(0, n as int) =~= digits@);
    (low, carry)
}

/// One digit of a multiplication in base 1000: the digit times the factor,
/// with what was carried in, leaves one digit and carries the rest on.
proof fn lemma_scale_step(
    low: nat,
    carry: nat,
    unit: nat,
    before: nat,
    factor: nat,
    digit: nat,
    kept: nat,
    over: nat,
)
    requires
        low + carry * unit == before * factor,
        low < unit,
        kept < 1000,
        digit * factor + carry == 1000 * over + kept,
    ensures
        low + kept * unit + over * (1000 * unit) == (before + digit * unit) * factor,
        low + kept * unit < 1000 * unit,
{
    assert(low + kept * unit + over * (1000 * unit) == (before + digit * unit) * factor)
        by (nonlinear_arith)
        requires
            low + carry * unit == before * factor,
            digit * factor + carry == 1000 * over + kept,
    ;
    assert(low + kept * unit < 1000 * unit) by (nonlinear_arith)
        requires
            low < unit,
            kept < 1000,
    ;
}

/// One power of the multiplier: the whole part and the fraction of
/// `initial_delay * multiplier^k`, times the multiplier, are the whole part
/// and the fraction of `initial_delay * multiplier^(k + 1)`.
proof fn lemma_carry_over(
    whole: nat,
    fraction: nat,
    unit: nat,
    multiplier: nat,
    low: nat,
    carry: nat,
    next: nat,
    top: nat,
    product: nat,
)
    requires
        whole * unit + fraction == product,
        low + carry * unit == fraction * multiplier,
        low < unit,
        top < 1000,
        whole * multiplier + carry == 1000 * next + top,
    ensures
        next * (1000 * unit) + (low + top * unit) == product * multiplier,
        low + top * unit < 1000 * unit,
{
    assert(next * (1000 * unit) + (low + top * unit) == product * multiplier) by (nonlinear_arith)
        requires
            whole * unit + fraction == product,
            low + carry * unit == fraction * multiplier,
            whole * multiplier + carry == 1000 * next + top,
    ;
    assert(low + top * unit < 1000 * unit) by (nonlinear_arith)
        requires
            low < unit,
            top < 1000,
    ;
}

/// A power of a positive number is positive.
pub proof fn lemma_power_positive(base: nat, exponent: nat)
    requires
        base > 0,
    ensures
        power(base, exponent) > 0,
    decreases exponent,
{
    if exponent > 0 {
        lemma_power_positive(base, (exponent - 1) as nat);
        assert(base * power(base, (exponent - 1) as nat) > 0) by (nonlinear_arith)
            requires
                base > 0,
                power(base, (exponent - 1) as nat) > 0,
        ;
    }
}

/// Where `initial_delay * multiplier^attempt` is `whole` units of
/// `1000^attempt` and a fraction of one, the delay without the cap is
/// `whole`.
proof fn lemma_whole_part(c: RetryConfigView, attempt: nat, whole: nat, fraction: nat)
    requires
        fraction < power(1000, attempt),
        whole * power(1000, attempt) + fraction == c.initial_delay * power(c.multiplier, attempt),
    ensures
        spec_uncapped_delay(c, attempt) == whole,
{
    vstd::arithmetic::div_mod::lemma_fundamental_div_mod_converse(
        (c.initial_delay * power(c.multiplier, attempt)) as int,
        power(1000, attempt) as int,
        whole as int,
        fraction as int,
    );
}

/// Before any attempt has failed, the delay without the cap is the initial
/// delay.
pub proof fn lemma_uncapped_start(c: RetryConfigView)
    ensures
        spec_uncapped_delay(c, 0) == c.initial_delay,
{
    assert(power(1000, 0) == 1);
    assert(power(c.multiplier, 0) == 1);
    assert(c.initial_delay * power(c.multiplier, 0) == c.initial_delay) by (nonlinear_arith)
        requires
            power(c.multiplier, 0) == 1,
    ;
}

/// An initial delay of zero stays zero.
proof fn lemma_uncapped_of_zero(c: RetryConfigView, attempt: nat)
    requires
        c.initial_delay == 0,
    ensures
        spec_uncapped_delay(c, attempt) == 0,
{
    lemma_power_positive(1000, attempt);
    assert(0 * power(c.multiplier, attempt) == 0) by (nonlinear_arith);
    lemma_whole_part(c, attempt, 0, 0);
}

/// Under a multiplier of one, the delay stays the initial delay.
proof fn lemma_uncapped_of_one(c: RetryConfigView, attempt: nat)
    requires
        c.multiplier == 1000,
    ensures
        spec_uncapped_delay(c, attempt) == c.initial_delay,
{
    lemma_power_positive(1000, attempt);
    lemma_whole_part(c, attempt, c.initial_delay, 0);
}

/// Without the cap, the delay after one more failed attempt is never
/// shorter.
pub proof fn lemma_uncapped_monotonic(c: RetryConfigView, attempt: nat)
    requires
        c.wf(),
    ensures
        spec_uncapped_delay(c, attempt) <= spec_uncapped_delay(c, attempt + 1),
{
    let grown = (c.initial_delay * power(c.multiplier, attempt)) as int;
    let unit = power(1000, attempt) as int;
    lemma_power_positive(1000, attempt);
    assert(power(1000, attempt + 1) == 1000 * power(1000, attempt));
    assert(power(c.multiplier, attempt + 1) == c.multiplier * power(c.multiplier, attempt));
    assert(c.initial_delay * power(c.multiplier, attempt + 1) == grown * c.multiplier)
        by (nonlinear_arith)
        requires
            power(c.multiplier, attempt + 1) == c.multiplier * power(c.multiplier, attempt),
            grown == c.initial_delay * power(c.multiplier, attempt),
    ;
    assert(1000 * grown <= grown * c.multiplier) by (nonlinear_arith)
        requires
            grown >= 0,
            c.multiplier >= 1000,
    ;
    vstd::arithmetic::div_mod::lemma_div_multiples_vanish_quotient(1000, grown, unit);
    vstd::arithmetic::div_mod::lemma_div_is_ordered(
        1000 * grown,
        grown * c.multiplier,
        1000 * unit,
    );
}

/// Without the cap, delays are non-decreasing over any number of attempts.
pub proof fn lemma_uncapped_ordered(c: RetryConfigView, earlier: nat, later: nat)
    requires
        c.wf(),
        earlier <= later,
    ensures
        spec_uncapped_delay(c, earlier) <= spec_uncapped_delay(c, later),
    decreases later - earlier,
{
    if earlier < later {
        lemma_uncapped_ordered(c, earlier, (later - 1) as nat);
        lemma_uncapped_monotonic(c, (later - 1) as nat);
    }
}

/// Backoff monotonicity: delays never exceed `max_delay`, and the delay
/// after one more failed attempt is never shorter.
pub proof fn lemma_backoff_monotonic(c: RetryConfigView, attempt: nat)
    requires
        c.wf(),
    ensures
        spec_nominal_delay(c, attempt) <= spec_nominal_delay(c, attempt + 1) <= c.max_delay,
{
    lemma_uncapped_monotonic(c, attempt);
}

/// Delays are non-decreasing over any number of attempts, and a delay that
/// has reached `max_delay` stays there.
pub proof fn lemma_backoff_ordered(c: RetryConfigView, earlier: nat, later: nat)
    requires
        c.wf(),
        earlier <= later,
    ensures
        spec_nominal_delay(c, earlier) <= spec_nominal_delay(c, later) <= c.max_delay,
        spec_nominal_delay(c, earlier) == c.max_delay ==> spec_nominal_delay(c, later)
            == c.max_delay,
{
    lemma_uncapped_ordered(c, earlier, later);
}

/// A multiplier above one outgrows any line: `multiplier^k` is at least
/// `1 + k / 1000`, in thousandths.
proof fn lemma_power_grows(multiplier: nat, k: nat)
    requires
        multiplier > 1000,
    ensures
        power(multiplier, k) * 1000 >= power(1000, k) * (1000 + k),
    decreases k,
{
    if k > 0 {
        lemma_power_grows(multiplier, (k - 1) as nat);
        let a = power(multiplier, (k - 1) as nat);
        let b = power(1000, (k - 1) as nat);
        assert((multiplier * a) * 1000 >= (1000 * b) * (1000 + k)) by (nonlinear_arith)
            requires
                a * 1000 >= b * (999 + k),
                multiplier >= 1001,
                k >= 1,
                a >= 0,
                b >= 0,
        ;
    }
}

/// The cap is reached: a delay that starts above zero under a multiplier
/// above one is `max_delay` after enough failed attempts, and from then on.
pub proof fn lemma_backoff_reaches_cap(c: RetryConfigView, later: nat)
    requires
        c.wf(),
        c.initial_delay > 0,
        c.multiplier > 1000,
        later >= 1000 * c.max_delay,
    ensures
        spec_nominal_delay(c, later) == c.max_delay,
{
    let k = 1000 * c.max_delay;
    let grown = power(c.multiplier, k);
    let unit = power(1000, k);
    lemma_power_grows(c.multiplier, k);
    lemma_power_positive(1000, k);
    assert(c.initial_delay * grown >= unit * (1 + c.max_delay)) by (nonlinear_arith)
        requires
            grown * 1000 >= unit * (1000 + 1000 * c.max_delay),
            c.initial_delay >= 1,
            grown >= 0,
            unit > 0,
    ;
    vstd::arithmetic::div_mod::lemma_div_is_ordered(
        (unit * (1 + c.max_delay)) as int,
        (c.initial_delay * grown) as int,
        unit as int,
    );
    vstd::arithmetic::div_mod::lemma_div_multiples_vanish((1 + c.max_delay) as int, unit as int);
    assert(spec_uncapped_delay(c, k) >= 1 + c.max_delay);
    lemma_uncapped_ordered(c, k, later);
}

} // verus!
