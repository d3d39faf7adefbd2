//! Numeric scales: "nice" tick steps, tick generation and normalization.
use vstd::prelude::*;
use crate::domain::{BoundingDomain, Dim, DomainError, Extent};
use crate::text::{decimal_string, decimal_text, Tick};

verus! {

/// `10^n`
pub open spec fn pow10(n: nat) -> int
    decreases n,
{
    if n == 0 {
        1
    } else {
        10 * pow10((n - 1) as nat)
    }
}

pub proof fn lemma_pow10_positive(n: nat)
    ensures
        pow10(n) >= 1,
    decreases n,
{
    if n > 0 {
        lemma_pow10_positive((n - 1) as nat);
    }
}

pub proof fn lemma_pow10_monotone(a: nat, b: nat)
    requires
        a <= b,
    ensures
        pow10(a) <= pow10(b),
    decreases b,
{
    if a < b {
        lemma_pow10_monotone(a, (b - 1) as nat);
        lemma_pow10_positive((b - 1) as nat);
    }
}

proof fn lemma_pow10_bound(n: nat)
    requires
        n <= 10,
    ensures
        1 <= pow10(n) <= 10_000_000_000,
{
    lemma_pow10_positive(n);
    lemma_pow10_monotone(n, 10);
    reveal_with_fuel(pow10, 11);
}

/// `10^n` for small `n`
pub(crate) fn pow10_exec(n: u32) -> (r: u64)
    requires
        n <= 10,
    ensures
        r == pow10(n as nat),
{
    let mut r: u64 = 1;
    let mut i: u32 = 0;
    while i < n
        invariant
            i <= n <= 10,
            r == pow10(i as nat),
        decreases n - i,
    {
        proof {
            lemma_pow10_bound(i as nat);
        }
        r = r * 10;
        i = i + 1;
    }
    r
}

/// The `n`-th "nice" number `m * 10^e`, with `m` in `{1, 2, 5}`, as the
/// pair `(m, e)`. The family ..., 0.5, 1, 2, 5, 10, 20, ... is strictly
/// increasing in `n`, and `nice_at(0)` is `1`.
pub open spec fn nice_at(n: int) -> (int, int) {
    let k = n % 3;
    (
        if k == 0 {
            1
        } else if k == 1 {
            2
        } else {
            5
        },
        n / 3,
    )
}

/// `m * 10^e >= span / t`: the step `m * 10^e` fits `t` steps over `span`.
pub open spec fn step_covers(m: int, e: int, span: int, t: int) -> bool {
    if e >= 0 {
        m * pow10(e as nat) * t >= span
    } else {
        m * t >= span * pow10((-e) as nat)
    }
}

pub open spec fn covers_at(n: int, span: int, t: int) -> bool {
    step_covers(nice_at(n).0, nice_at(n).1, span, t)
}

/// The `n`-th nice number is the smallest nice number `>= span / t`: it
/// covers, and the one before it does not.
pub open spec fn is_nice_index(n: int, span: int, t: int) -> bool {
    covers_at(n, span, t) && !covers_at(n - 1, span, t)
}

/// Index of the nice step for `t` ticks over `span`
pub open spec fn nice_index(span: int, t: int) -> int {
    choose|n: int| is_nice_index(n, span, t)
}

/// The nice step `(m, e)` for `t` ticks over `span`
pub open spec fn nice_step(span: int, t: int) -> (int, int) {
    nice_at(nice_index(span, t))
}

proof fn lemma_covers_next(n: int, span: int, t: int)
    requires
        span >= 0,
        t >= 1,
        covers_at(n, span, t),
    ensures
        covers_at(n + 1, span, t),
{
    let e = n / 3;
    let k = n % 3;
    vstd::arithmetic::div_mod::lemma_fundamental_div_mod(n, 3);
    if k < 2 {
        vstd::arithmetic::div_mod::lemma_fundamental_div_mod_converse(n + 1, 3, e, k + 1);
        assert(nice_at(n + 1).1 == e);
    } else {
        vstd::arithmetic::div_mod::lemma_fundamental_div_mod_converse(n + 1, 3, e + 1, 0);
        assert(nice_at(n + 1) == (1int, e + 1));
    }
    if e >= 0 {
        lemma_pow10_positive(e as nat);
        let p = pow10(e as nat);
        if n % 3 == 2 {
            assert(pow10((e + 1) as nat) == 10 * p);
            assert(1 * (10 * p) * t >= span) by (nonlinear_arith)
                requires
                    5 * p * t >= span,
                    p >= 1,
                    t >= 1,
            ;
        } else {
            assert(5 * p * t >= 2 * p * t >= 1 * p * t) by (nonlinear_arith)
                requires
                    p >= 1,
                    t >= 1,
            ;
        }
    } else {
        let k = (-e) as nat;
        lemma_pow10_positive(k);
        if n % 3 == 2 {
            if e == -1 {
                assert(pow10(1) == 10) by {
                    reveal_with_fuel(pow10, 2);
                }
            } else {
                let k1 = (k - 1) as nat;
                lemma_pow10_positive(k1);
                assert(pow10(k) == 10 * pow10(k1));
                assert(t >= span * pow10(k1)) by (nonlinear_arith)
                    requires
                        5 * t >= span * (10 * pow10(k1)),
                        span >= 0,
                        pow10(k1) >= 1,
                ;
            }
        }
    }
}

proof fn lemma_covers_monotone(n: int, k: nat, span: int, t: int)
    requires
        span >= 0,
        t >= 1,
        covers_at(n, span, t),
    ensures
        covers_at(n + k, span, t),
    decreases k,
{
    if k > 0 {
        lemma_covers_monotone(n, (k - 1) as nat, span, t);
        lemma_covers_next(n + k - 1, span, t);
    }
}

/// There is only one nice step for a span and a tick count.
pub proof fn lemma_nice_index_unique(a: int, b: int, span: int, t: int)
    requires
        span >= 0,
        t >= 1,
        is_nice_index(a, span, t),
        is_nice_index(b, span, t),
    ensures
        a == b,
{
    if a < b {
        lemma_covers_monotone(a, (b - 1 - a) as nat, span, t);
    } else if b < a {
        lemma_covers_monotone(b, (a - 1 - b) as nat, span, t);
    }
}

/// The number `units / 10^decimals`
#[derive(Clone, Copy, Debug, PartialEq, Eq, Structural)]
pub struct Decimal {
    pub units: i64,
    pub decimals: u32,
}

/// The fraction `num / den`, not reduced; `den` is positive.
#[derive(Clone, Copy, Debug, PartialEq, Eq, Structural)]
pub struct Ratio {
    pub num: i64,
    pub den: i64,
}

proof fn lemma_find_nice(e: int, span: int, t: int) -> (n: int)
    requires
        -5 <= e <= 9,
        1 <= span <= u32::MAX,
        1 <= t <= u16::MAX,
        !covers_at(3 * e, span, t),
    ensures
        is_nice_index(n, span, t),
        3 * e < n <= 30,
    decreases 9 - e,
{
    assert(nice_at(3 * e) == (1int, e));
    assert(nice_at(3 * e + 1) == (2int, e));
    assert(nice_at(3 * e + 2) == (5int, e));
    assert(nice_at(3 * e + 3) == (1int, e + 1));
    if covers_at(3 * e + 1, span, t) {
        3 * e + 1
    } else if covers_at(3 * e + 2, span, t) {
        3 * e + 2
    } else if covers_at(3 * e + 3, span, t) || e == 9 {
        if e == 9 {
            assert(pow10(10) == 10_000_000_000) by {
                reveal_with_fuel(pow10, 11);
            }
            assert(1 * pow10(10) * t >= span) by (nonlinear_arith)
                requires
                    pow10(10) == 10_000_000_000,
                    t >= 1,
                    span <= u32::MAX,
            ;
        }
        3 * e + 3
    } else {
        lemma_find_nice(e + 1, span, t)
    }
}

/// A nice step exists for every positive span and tick count, with an
/// exponent from `-5` to `10`.
pub proof fn lemma_nice_step_exists(span: int, t: int)
    requires
        1 <= span <= u32::MAX,
        1 <= t <= u16::MAX,
    ensures
        is_nice_index(nice_index(span, t), span, t),
        -5 <= nice_step(span, t).1 <= 10,
        nice_step(span, t).0 == 1 || nice_step(span, t).0 == 2 || nice_step(span, t).0 == 5,
{
    assert(nice_at(-15) == (1int, -5int));
    assert(pow10(5) == 100000) by {
        reveal_with_fuel(pow10, 6);
    }
    let n = lemma_find_nice(-5, span, t);
    let c = nice_index(span, t);
    lemma_nice_index_unique(c, n, span, t);
}

/// The nice number before the `n`-th one
proof fn lemma_prev_nice(n: int)
    ensures
        ({
            let (m, e) = nice_at(n);
            nice_at(n - 1) == if m == 1 {
                (5int, e - 1)
            } else if m == 2 {
                (1int, e)
            } else {
                (2int, e)
            }
        }),
{
    let e = n / 3;
    let k = n % 3;
    vstd::arithmetic::div_mod::lemma_fundamental_div_mod(n, 3);
    if k > 0 {
        vstd::arithmetic::div_mod::lemma_fundamental_div_mod_converse(n - 1, 3, e, k - 1);
    } else {
        vstd::arithmetic::div_mod::lemma_fundamental_div_mod_converse(n - 1, 3, e - 1, 2);
    }
}

/// Tick step `mantissa * 10^exponent`
#[derive(Clone, Copy, Debug, PartialEq, Eq, Structural)]
pub struct Step {
    pub mantissa: u8,
    pub exponent: i32,
}

/// Whether the step `m * 10^e` covers `span / t`.
fn covers(m: u64, e: i32, span: u64, t: u64) -> (r: bool)
    requires
        1 <= m <= 10,
        -5 <= e <= 10,
        span <= u32::MAX,
        1 <= t <= u16::MAX,
    ensures
        r == step_covers(m as int, e as int, span as int, t as int),
{
    if e >= 0 {
        let p = pow10_exec(e as u32);
        proof {
            lemma_pow10_bound(e as nat);
            assert(m * p <= 100_000_000_000) by (nonlinear_arith)
                requires
                    m <= 10,
                    p <= 10_000_000_000,
            ;
            assert((m * p) * t <= 100_000_000_000 * 65535) by (nonlinear_arith)
                requires
                    m * p <= 100_000_000_000,
                    t <= 65535,
            ;
        }
        m * p * t >= span
    } else {
        let p = pow10_exec((-e) as u32);
        proof {
            lemma_pow10_monotone((-e) as nat, 5);
            assert(pow10(5) == 100000) by {
                reveal_with_fuel(pow10, 6);
            }
            assert(span * p <= 4294967295 * 100000) by (nonlinear_arith)
                requires
                    span <= 4294967295,
                    p <= 100000,
            ;
            assert(m * t <= 10 * 65535) by (nonlinear_arith)
                requires
                    m <= 10,
                    t <= 65535,
            ;
        }
        m * t >= span * p
    }
}

/// The nice step for `t` ticks over `span`: the smallest `m * 10^e` with
/// `m` in `{1, 2, 5}` that is at least `span / t`.
pub fn find_nice_step(span: u32, t: u16) -> (r: Step)
    requires
        span >= 1,
        t >= 1,
    ensures
        (r.mantissa as int, r.exponent as int) == nice_step(span as int, t as int),
        -5 <= r.exponent <= 10,
{
    let sp = span as u64;
    let tt = t as u64;
    let mut e: i32 = -5;
    proof {
        assert(pow10(5) == 100000) by {
            reveal_with_fuel(pow10, 6);
        }
        assert(nice_at(3 * e) == (1int, e as int));
        assert(pow10(10) == 10_000_000_000) by {
            reveal_with_fuel(pow10, 11);
        }
    }
    while !covers(1, e + 1, sp, tt)
        invariant
            -5 <= e <= 9,
            sp == span,
            tt == t,
            span >= 1,
            t >= 1,
            pow10(10) == 10_000_000_000,
            !covers_at(3 * e, span as int, t as int),
        decreases 9 - e,
    {
        proof {
            if e == 9 {
                assert(1 * pow10(10) * t >= span) by (nonlinear_arith)
                    requires
                        pow10(10) == 10_000_000_000,
                        t >= 1,
                        span <= u32::MAX,
                ;
            }
        }
        e = e + 1;
        assert(nice_at(3 * e) == (1int, e as int));
    }
    let ghost n: int;
    let r = if covers(2, e, sp, tt) {
        proof {
            n = 3 * e + 1;
            assert(nice_at(n) == (2int, e as int));
            assert(nice_at(n - 1) == (1int, e as int));
        }
        Step { mantissa: 2, exponent: e }
    } else if covers(5, e, sp, tt) {
        proof {
            n = 3 * e + 2;
            assert(nice_at(n) == (5int, e as int));
            assert(nice_at(n - 1) == (2int, e as int));
        }
        Step { mantissa: 5, exponent: e }
    } else {
        proof {
            n = 3 * e + 3;
            assert(nice_at(n) == (1int, e + 1));
            assert(nice_at(n - 1) == (5int, e as int));
        }
        Step { mantissa: 1, exponent: e + 1 }
    };
    proof {
        assert(is_nice_index(n, span as int, t as int));
        let c = nice_index(span as int, t as int);
        lemma_nice_index_unique(c, n, span as int, t as int);
    }
    r
}


/// `a / b` (floor) brackets `a` between two consecutive multiples of `b`.
proof fn lemma_floor(a: int, b: int)
    requires
        b > 0,
    ensures
        (a / b) * b <= a < (a / b + 1) * b,
{
    vstd::arithmetic::div_mod::lemma_fundamental_div_mod(a, b);
    vstd::arithmetic::div_mod::lemma_mod_bound(a, b);
    assert((a / b + 1) * b == (a / b) * b + b) by (nonlinear_arith);
    assert(b * (a / b) == (a / b) * b) by (nonlinear_arith);
}

/// Floor division
fn floor_div(a: i64, b: i64) -> (q: i64)
    requires
        b > 0,
    ensures
        q == a / b,
{
    proof {
        lemma_floor(a as int, b as int);
        let q = a / b;
        assert(i64::MIN <= q <= i64::MAX) by (nonlinear_arith)
            requires
                q * b <= a < (q + 1) * b,
                b >= 1,
                i64::MIN <= a <= i64::MAX,
        ;
    }
    match a.checked_div_euclid(b) {
        Some(q) => q,
        // the quotient always fits, as proved above
        None => 0,
    }
}

/// Scale from a numeric domain `[lo, hi]` to the unit interval, with a
/// target number of ticks.
///
/// `inverted` reverses the direction, for axes whose pixel coordinates grow
/// opposite to the data.
#[derive(Clone, Copy, Debug, PartialEq, Eq, Structural)]
pub struct NumericScale {
    pub lo: i32,
    pub hi: i32,
    pub target: u16,
    pub inverted: bool,
}

impl NumericScale {
    pub open spec fn wf(self) -> bool {
        self.lo <= self.hi && self.target >= 1
    }

    proof fn lemma_tick_facts(self)
        requires
            self.wf(),
        ensures
            self.decimals_spec() <= 5,
            1 <= pow10(self.decimals_spec()) <= 100000,
            1 <= self.unit_step() <= 50_000_000_000,
            -214748364800000 <= self.lo_units() <= self.hi_units() <= 214748364700000,
            self.first_index() * self.unit_step() >= self.lo_units(),
            (self.first_index() - 1) * self.unit_step() < self.lo_units(),
            self.last_index() * self.unit_step() <= self.hi_units(),
            (self.last_index() + 1) * self.unit_step() > self.hi_units(),
            self.tick_count() >= 0,
    {
        let (m, e) = self.step_spec();
        let d = self.decimals_spec();
        if self.lo < self.hi {
            lemma_nice_step_exists(self.hi - self.lo, self.target as int);
        }
        assert(pow10(5) == 100000) by {
            reveal_with_fuel(pow10, 6);
        }
        lemma_pow10_positive(d);
        lemma_pow10_monotone(d, 5);
        let k = (e + d) as nat;
        assert(m == 1 || m == 2 || m == 5);
        assert(k <= 10);
        lemma_pow10_positive(k);
        lemma_pow10_bound(k);
        assert(m * pow10(k) <= 5 * 10_000_000_000) by (nonlinear_arith)
            requires
                1 <= m <= 5,
                pow10(k) <= 10_000_000_000,
        ;
        assert(m * pow10(k) >= 1) by (nonlinear_arith)
            requires
                m >= 1,
                pow10(k) >= 1,
        ;
        let p = pow10(d);
        assert(-214748364800000 <= self.lo * p <= self.hi * p <= 214748364700000) by (nonlinear_arith)
            requires
                1 <= p <= 100000,
                i32::MIN <= self.lo <= self.hi <= i32::MAX,
        ;
        let su = self.unit_step();
        lemma_floor(-self.lo_units(), su);
        lemma_floor(self.hi_units(), su);
        let f = self.first_index();
        let l = self.last_index();
        assert((f - 1) * su == f * su - su) by (nonlinear_arith);
        assert((-f) * su == -(f * su)) by (nonlinear_arith);
        assert((-f + 1) * su == -(f * su) + su) by (nonlinear_arith);
        assert(f - 1 <= l) by (nonlinear_arith)
            requires
                (f - 1) * su < self.lo_units(),
                self.lo_units() <= self.hi_units(),
                self.hi_units() < (l + 1) * su,
                su >= 1,
        ;
    }

    /// The tick step `(m, e)`, meaning `m * 10^e`; a domain of zero span
    /// gets the step `1`.
    pub open spec fn step_spec(self) -> (int, int) {
        if self.lo == self.hi {
            (1, 0)
        } else {
            nice_step(self.hi - self.lo, self.target as int)
        }
    }

    /// Digits after the decimal point needed by the step
    pub open spec fn decimals_spec(self) -> nat {
        let e = self.step_spec().1;
        if e < 0 {
            (-e) as nat
        } else {
            0
        }
    }

    /// The step counted in units of `10^-decimals`
    pub open spec fn unit_step(self) -> int {
        let (m, e) = self.step_spec();
        m * pow10((e + self.decimals_spec()) as nat)
    }

    pub open spec fn lo_units(self) -> int {
        self.lo * pow10(self.decimals_spec())
    }

    pub open spec fn hi_units(self) -> int {
        self.hi * pow10(self.decimals_spec())
    }

    /// Index of the first multiple of the step at or above `lo`
    pub open spec fn first_index(self) -> int {
        -((-self.lo_units()) / self.unit_step())
    }

    /// Index of the last multiple of the step at or below `hi`
    pub open spec fn last_index(self) -> int {
        self.hi_units() / self.unit_step()
    }

    pub open spec fn tick_count(self) -> int {
        self.last_index() - self.first_index() + 1
    }

    /// Value of the `i`-th tick, in units of `10^-decimals`
    pub open spec fn tick_units(self, i: int) -> int {
        (self.first_index() + i) * self.unit_step()
    }

    /// Normalized position `(num, den)` of the value `units / 10^d`: its
    /// fraction of the way from `lo` to `hi` (from `hi` to `lo` when
    /// inverted), or one half for a domain of zero span.
    pub open spec fn position_spec(self, units: int, d: nat) -> (int, int) {
        let s = pow10(d);
        if self.lo == self.hi {
            (1, 2)
        } else if self.inverted {
            (self.hi * s - units, (self.hi - self.lo) * s)
        } else {
            (units - self.lo * s, (self.hi - self.lo) * s)
        }
    }

    /// `t` is the `i`-th tick: its value, its normalized position, and its
    /// label at the shared precision.
    pub open spec fn is_tick(self, t: Tick, i: int) -> bool {
        let u = self.tick_units(i);
        let d = self.decimals_spec();
        &&& t.value.units == u
        &&& t.value.decimals == d
        &&& (t.position.num as int, t.position.den as int) == self.position_spec(u, d)
        &&& t.position.den > 0
        &&& t.text@ == decimal_text(u, d)
    }

    /// Normalized position of a data value
    pub open spec fn normalize_spec(self, value: int) -> (int, int) {
        self.position_spec(value, 0)
    }

    /// Scale over `extent`; fails with `InvalidDomain` when its minimum is
    /// above its maximum.
    pub fn from_domain(extent: Extent, target: u16) -> (r: Result<NumericScale, DomainError>)
        requires
            target >= 1,
        ensures
            extent.min > extent.max <==> r == Err::<NumericScale, DomainError>(DomainError::InvalidDomain),
            extent.min <= extent.max ==> r == Ok::<NumericScale, DomainError>(
                NumericScale { lo: extent.min, hi: extent.max, target, inverted: false },
            ),
    {
        if extent.min > extent.max {
            Err(DomainError::InvalidDomain)
        } else {
            Ok(NumericScale { lo: extent.min, hi: extent.max, target, inverted: false })
        }
    }

    /// Scale over one dimension of a bounding domain
    pub fn from_data(domain: &BoundingDomain, dim: Dim, target: u16) -> (r: NumericScale)
        requires
            domain.wf(),
            target >= 1,
        ensures
            r.wf(),
            r == (NumericScale {
                lo: domain.extent_spec(dim).min,
                hi: domain.extent_spec(dim).max,
                target,
                inverted: false,
            }),
    {
        let e = domain.extent(dim);
        NumericScale { lo: e.min, hi: e.max, target, inverted: false }
    }

    /// The same scale in the opposite direction
    pub fn inverted(&self) -> (r: NumericScale)
        ensures
            r == (NumericScale { inverted: !self.inverted, ..*self }),
    {
        NumericScale { inverted: !self.inverted, ..*self }
    }

    /// Scale over the combined extent of both scales, keeping this scale's
    /// tick target and direction
    pub fn union(&self, rhs: &NumericScale) -> (r: NumericScale)
        requires
            self.wf(),
            rhs.wf(),
        ensures
            r.wf(),
            r.lo == if self.lo <= rhs.lo { self.lo } else { rhs.lo },
            r.hi == if self.hi >= rhs.hi { self.hi } else { rhs.hi },
            r.target == self.target,
            r.inverted == self.inverted,
    {
        NumericScale {
            lo: if self.lo <= rhs.lo { self.lo } else { rhs.lo },
            hi: if self.hi >= rhs.hi { self.hi } else { rhs.hi },
            ..*self
        }
    }

    /// Position of `value` as a fraction of the domain
    pub fn normalize(&self, value: i32) -> (r: Ratio)
        requires
            self.wf(),
        ensures
            (r.num as int, r.den as int) == self.normalize_spec(value as int),
            r.den > 0,
    {
        proof {
            assert(pow10(0) == 1);
        }
        if self.lo == self.hi {
            Ratio { num: 1, den: 2 }
        } else if self.inverted {
            Ratio { num: self.hi as i64 - value as i64, den: self.hi as i64 - self.lo as i64 }
        } else {
            Ratio { num: value as i64 - self.lo as i64, den: self.hi as i64 - self.lo as i64 }
        }
    }

    /// The ticks: every multiple of the step from `lo` to `hi`, both
    /// included, in increasing order, each with its normalized position and
    /// its label at the precision of the step.
    pub fn ticks(&self) -> (r: Vec<Tick>)
        requires
            self.wf(),
        ensures
            r@.len() == self.tick_count(),
            forall|i: int| 0 <= i < r@.len() ==> self.is_tick(#[trigger] r@[i], i),
    {
        proof {
            self.lemma_tick_facts();
        }
        let st = self.step();
        let d: u32 = if st.exponent < 0 { (-st.exponent) as u32 } else { 0 };
        let s = pow10_exec(d) as i64;
        let k = (st.exponent + d as i32) as u32;
        let pk = pow10_exec(k);
        proof {
            lemma_pow10_bound(k as nat);
        }
        let su = st.mantissa as i64 * pk as i64;
        let lo_u = self.lo as i64 * s;
        let hi_u = self.hi as i64 * s;
        let first = -floor_div(-lo_u, su);
        let last = floor_div(hi_u, su);
        let span_u = hi_u - lo_u;
        let mut v: Vec<Tick> = Vec::new();
        let mut j: i64 = first;
        while j <= last
            invariant
                self.wf(),
                d == self.decimals_spec(),
                s == pow10(d as nat),
                su == self.unit_step(),
                lo_u == self.lo_units(),
                hi_u == self.hi_units(),
                span_u == hi_u - lo_u,
                first == self.first_index(),
                last == self.last_index(),
                d <= 5,
                1 <= s <= 100000,
                1 <= su,
                first * su >= lo_u,
                last * su <= hi_u,
                -214748364800000 <= lo_u <= hi_u <= 214748364700000,
                first <= j <= last + 1,
                v@.len() == j - first,
                forall|i: int| 0 <= i < v@.len() ==> self.is_tick(#[trigger] v@[i], i),
            decreases last + 1 - j,
        {
            proof {
                assert(lo_u <= j * su <= hi_u) by (nonlinear_arith)
                    requires
                        first <= j <= last,
                        su >= 1,
                        first * su >= lo_u,
                        last * su <= hi_u,
                ;
                assert(self.tick_units(j - first) == j * su);
                assert(self.hi * s - self.lo * s == (self.hi - self.lo) * s) by (nonlinear_arith);
                if self.lo < self.hi {
                    assert((self.hi - self.lo) * s >= 1) by (nonlinear_arith)
                        requires
                            self.hi - self.lo >= 1,
                            s >= 1,
                    ;
                }
            }
            let units = j * su;
            let position = if self.lo == self.hi {
                Ratio { num: 1, den: 2 }
            } else if self.inverted {
                Ratio { num: hi_u - units, den: span_u }
            } else {
                Ratio { num: units - lo_u, den: span_u }
            };
            let value = Decimal { units, decimals: d };
            let text = decimal_string(value);
            v.push(Tick { value, position, text });
            j = j + 1;
        }
        v
    }

    /// The tick step `mantissa * 10^exponent`
    pub fn step(&self) -> (r: Step)
        requires
            self.wf(),
        ensures
            (r.mantissa as int, r.exponent as int) == self.step_spec(),
            -5 <= r.exponent <= 10,
    {
        if self.lo == self.hi {
            Step { mantissa: 1, exponent: 0 }
        } else {
            find_nice_step((self.hi as i64 - self.lo as i64) as u32, self.target)
        }
    }
}


/// `a <= b` for fractions `(num, den)` with positive denominators
pub open spec fn frac_le(a: (int, int), b: (int, int)) -> bool {
    a.0 * b.1 <= b.0 * a.1
}

/// On a domain with `lo < hi`, `normalize` maps `lo` to 0 and `hi` to 1,
/// stays within `[0, 1]` on the domain, and never decreases there.
pub proof fn lemma_normalize_ends_monotone(s: NumericScale, v1: int, v2: int)
    requires
        s.wf(),
        s.lo < s.hi,
        !s.inverted,
    ensures
        s.normalize_spec(s.lo as int).0 == 0,
        s.normalize_spec(s.hi as int).0 == s.normalize_spec(s.hi as int).1,
        s.normalize_spec(v1).1 > 0,
        s.lo <= v1 <= s.hi ==> 0 <= s.normalize_spec(v1).0 <= s.normalize_spec(v1).1,
        s.lo <= v1 <= v2 <= s.hi ==> frac_le(s.normalize_spec(v1), s.normalize_spec(v2)),
{
    assert(pow10(0) == 1);
    let den = s.hi - s.lo;
    if s.lo <= v1 <= v2 <= s.hi {
        assert((v1 - s.lo) * den <= (v2 - s.lo) * den) by (nonlinear_arith)
            requires
                v1 <= v2,
                den > 0,
        ;
    }
}

/// On a domain of zero span, `normalize` is one half for every value.
pub proof fn lemma_normalize_degenerate(s: NumericScale, v: int)
    requires
        s.lo == s.hi,
    ensures
        s.normalize_spec(v) == (1int, 2int),
{
}

/// The inverted scale normalizes every value to one minus what the scale
/// gives; in particular it maps `hi` to 0 and `lo` to 1.
pub proof fn lemma_inverted_normalize(s: NumericScale, v: int)
    requires
        s.wf(),
    ensures
        ({
            let inv = NumericScale { inverted: !s.inverted, ..s };
            &&& inv.normalize_spec(v).1 == s.normalize_spec(v).1
            &&& inv.normalize_spec(v).0 == s.normalize_spec(v).1 - s.normalize_spec(v).0
            &&& s.lo < s.hi && !s.inverted ==> inv.normalize_spec(s.hi as int).0 == 0
                && inv.normalize_spec(s.lo as int).0 == inv.normalize_spec(s.lo as int).1
        }),
{
    assert(pow10(0) == 1);
}

/// The nice step is less than two and a half times the raw step
/// `span / target`: counted in units, `2 * step * target < 5 * span`.
proof fn lemma_step_tight(s: NumericScale)
    requires
        s.wf(),
        s.lo < s.hi,
    ensures
        2 * s.unit_step() * s.target < 5 * (s.hi - s.lo) * pow10(s.decimals_spec()),
{
    let span = s.hi - s.lo;
    let t = s.target as int;
    lemma_nice_step_exists(span, t);
    let n = nice_index(span, t);
    lemma_prev_nice(n);
    let (m, e) = s.step_spec();
    let d = s.decimals_spec();
    let p = pow10(d);
    let q = pow10((e + d) as nat);
    lemma_pow10_positive(d);
    lemma_pow10_positive((e + d) as nat);
    assert(s.unit_step() == m * q);
    if e >= 0 {
        assert(p == 1);
        if m == 2 {
            assert(2 * (2 * q) * t < 5 * span * 1) by (nonlinear_arith)
                requires
                    1 * q * t < span,
                    span >= 1,
                    p >= 1,
            ;
        } else if m == 5 {
            assert(2 * (5 * q) * t < 5 * span * 1) by (nonlinear_arith)
                requires
                    2 * q * t < span,
            ;
        } else if e >= 1 {
            let q1 = pow10((e - 1) as nat);
            assert(q == 10 * q1);
            assert(2 * (1 * q) * t < 5 * span * 1) by (nonlinear_arith)
                requires
                    5 * q1 * t < span,
                    span >= 1,
                    p >= 1,
                    q == 10 * q1,
            ;
        } else {
            assert(pow10(1) == 10) by {
                reveal_with_fuel(pow10, 2);
            }
            assert(q == 1);
        }
    } else {
        assert(q == 1);
        if m == 2 {
            assert(2 * (2 * 1) * t < 5 * span * p) by (nonlinear_arith)
                requires
                    t < span * p,
                    span >= 1,
                    p >= 1,
            ;
        } else if m == 5 {
            assert(2 * (5 * 1) * t < 5 * span * p) by (nonlinear_arith)
                requires
                    2 * t < span * p,
            ;
        } else {
            assert(pow10((1 - e) as nat) == 10 * p);
            assert(2 * (1 * 1) * t < 5 * span * p) by (nonlinear_arith)
                requires
                    5 * t < span * (10 * p),
                    span >= 1,
                    p >= 1,
            ;
        }
    }
}

/// Ticks are strictly increasing, lie within `[lo, hi]` exactly, and there
/// is one tick on a domain of zero span. Otherwise there are at most
/// `target + 1` of them, and more than `2 * target / 5 - 1`.
pub proof fn lemma_ticks_law(s: NumericScale)
    requires
        s.wf(),
    ensures
        forall|i: int, j: int|
            0 <= i < j < s.tick_count() ==> #[trigger] s.tick_units(i) < #[trigger] s.tick_units(j),
        forall|i: int|
            0 <= i < s.tick_count() ==> s.lo_units() <= #[trigger] s.tick_units(i) <= s.hi_units(),
        s.lo == s.hi ==> s.tick_count() == 1,
        s.lo < s.hi ==> s.tick_count() <= s.target + 1,
        s.lo < s.hi ==> 5 * (s.tick_count() + 1) > 2 * s.target,
{
    s.lemma_tick_facts();
    let su = s.unit_step();
    let f = s.first_index();
    let l = s.last_index();
    assert forall|i: int, j: int| 0 <= i < j < s.tick_count() implies
        #[trigger] s.tick_units(i) < #[trigger] s.tick_units(j) by {
        assert((f + i) * su < (f + j) * su) by (nonlinear_arith)
            requires
                i < j,
                su >= 1,
        ;
    }
    assert forall|i: int| 0 <= i < s.tick_count() implies
        s.lo_units() <= #[trigger] s.tick_units(i) <= s.hi_units() by {
        assert(f * su <= (f + i) * su <= l * su) by (nonlinear_arith)
            requires
                0 <= i,
                f + i <= l,
                su >= 1,
        ;
    }
    if s.lo == s.hi {
        assert(pow10(0) == 1);
        assert(su == 1);
        vstd::arithmetic::div_mod::lemma_fundamental_div_mod_converse(-s.lo_units(), 1, -s.lo_units(), 0);
        vstd::arithmetic::div_mod::lemma_fundamental_div_mod_converse(s.hi_units(), 1, s.hi_units(), 0);
    }
    if s.lo < s.hi {
        let span = s.hi - s.lo;
        let t = s.target as int;
        lemma_nice_step_exists(span, t);
        let (m, e) = s.step_spec();
        let d = s.decimals_spec();
        let p = pow10(d);
        // The step covers the span in `t` steps, counted in units.
        assert(su * t >= span * p) by {
            if e >= 0 {
                assert(d == 0);
                assert(p == 1);
            } else {
                assert(pow10(0) == 1);
                assert(su == m);
            }
        }
        assert(s.hi_units() - s.lo_units() == span * p) by (nonlinear_arith)
            requires
                s.hi_units() == s.hi * p,
                s.lo_units() == s.lo * p,
                span == s.hi - s.lo,
        ;
        assert((l - f) * su <= span * p) by (nonlinear_arith)
            requires
                f * su >= s.lo_units(),
                l * su <= s.hi_units(),
                s.hi_units() - s.lo_units() == span * p,
        ;
        assert(l - f <= t) by (nonlinear_arith)
            requires
                (l - f) * su <= span * p,
                su * t >= span * p,
                su >= 1,
        ;
        lemma_step_tight(s);
        assert(5 * (l - f + 2) > 2 * t) by (nonlinear_arith)
            requires
                (f - 1) * su < s.lo_units(),
                (l + 1) * su > s.hi_units(),
                s.hi_units() - s.lo_units() == span * p,
                2 * su * t < 5 * span * p,
                su >= 1,
        ;
    }
}

} // verus!
