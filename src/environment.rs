//! The sensor aggregator: a bounded history of samples, and its de-noised
//! temperature and humidity (a mean that ignores readings more than one
//! standard deviation from the plain mean).
use vstd::prelude::*;

use ringbuffer::AllocRingBuffer;
use vstd::arithmetic::div_mod::{
    lemma_div_is_ordered, lemma_div_multiples_vanish, lemma_div_multiples_vanish_fancy,
    lemma_fundamental_div_mod,
};

verus! {

#[verifier::external_type_specification]
#[verifier::external_body]
#[verifier::reject_recursive_types(T)]
pub struct ExAllocRingBuffer<T>(AllocRingBuffer<T>);

/// The items of a ring buffer, oldest first.
pub uninterp spec fn ring_items(r: AllocRingBuffer<(i16, i16)>) -> Seq<(i16, i16)>;

/// The number of items a ring buffer holds before it evicts.
pub uninterp spec fn ring_capacity(r: AllocRingBuffer<(i16, i16)>) -> nat;

/// `n` is a power of two (1, 2, 4, ...).
pub open spec fn is_power_of_two(n: nat) -> bool
    decreases n,
{
    if n == 1 {
        true
    } else if n < 2 || n % 2 == 1 {
        false
    } else {
        is_power_of_two(n / 2)
    }
}

/// Relies on AllocRingBuffer::with_capacity: an empty buffer of capacity
/// `cap`; it panics unless `cap` is a power of two.
#[verifier::external_body]
fn ring_with_capacity(cap: usize) -> (r: AllocRingBuffer<(i16, i16)>)
    requires
        is_power_of_two(cap as nat),
    ensures
        ring_items(r) == Seq::<(i16, i16)>::empty(),
        ring_capacity(r) == cap,
{
    AllocRingBuffer::with_capacity(cap)
}

/// `items` after pushing `x` into a ring of capacity `cap`: `x` goes last,
/// and when the ring is full the oldest item leaves.
pub open spec fn push_evict(items: Seq<(i16, i16)>, cap: nat, x: (i16, i16)) -> Seq<(i16, i16)> {
    if items.len() >= cap {
        items.drop_first().push(x)
    } else {
        items.push(x)
    }
}

/// Relies on RingBufferWrite::push of AllocRingBuffer: the item goes last and,
/// when the buffer is full, the oldest item is dropped first.
#[verifier::external_body]
fn ring_push(r: &mut AllocRingBuffer<(i16, i16)>, x: (i16, i16))
    requires
        ring_items(*old(r)).len() <= ring_capacity(*old(r)),
    ensures
        ring_capacity(*final(r)) == ring_capacity(*old(r)),
        ring_items(*final(r)) == push_evict(ring_items(*old(r)), ring_capacity(*old(r)), x),
{
    ringbuffer::RingBufferWrite::push(r, x)
}

/// Relies on RingBufferExt::to_vec of AllocRingBuffer: the items, oldest first.
#[verifier::external_body]
fn ring_to_vec(r: &AllocRingBuffer<(i16, i16)>) -> (v: Vec<(i16, i16)>)
    ensures
        v@ == ring_items(*r),
{
    ringbuffer::RingBufferExt::to_vec(r)
}

/// Relies on RingBuffer::capacity of AllocRingBuffer.
#[verifier::external_body]
fn ring_capacity_of(r: &AllocRingBuffer<(i16, i16)>) -> (c: usize)
    ensures
        c == ring_capacity(*r),
{
    ringbuffer::RingBuffer::capacity(r)
}

/// The largest history an aggregator keeps.
pub const MAX_CAPACITY: usize = 16777216;

/// The history kept when none is named.
pub const DEFAULT_INITIAL_READINGS: usize = 8;

/// One sensor observation: temperature in tenths of a degree Celsius,
/// humidity in tenths of a percent.
#[derive(Clone, Copy, Debug, PartialEq, Eq, Structural)]
pub struct Sample {
    pub temperature: i16,
    pub humidity: i16,
}

impl Sample {
    /// A sample is kept only with a humidity from 0 to 100 percent.
    pub open spec fn valid(self) -> bool {
        0 <= self.humidity <= 1000
    }
}

/// Sum of `s`.
pub open spec fn sum(s: Seq<i16>) -> int
    decreases s.len(),
{
    if s.len() == 0 {
        0
    } else {
        sum(s.drop_last()) + s.last() as int
    }
}

/// Sum of the squares of `s`.
pub open spec fn sum_sq(s: Seq<i16>) -> int
    decreases s.len(),
{
    if s.len() == 0 {
        0
    } else {
        sum_sq(s.drop_last()) + (s.last() as int) * (s.last() as int)
    }
}

/// `x` lies within one sample standard deviation of the mean of `n` values
/// whose sum is `total` and whose sum of squares is `total_sq`. With mean
/// `total / n` and variance `(total_sq - total * total / n) / (n - 1)`, the
/// condition `(x - mean)^2 <= variance` is scaled by `n * n * (n - 1)`.
pub open spec fn within_one_sd(n: int, total: int, total_sq: int, x: int) -> bool {
    (n - 1) * ((n * x - total) * (n * x - total)) <= n * (n * total_sq - total * total)
}

/// Sum of the values of `s` that lie within one standard deviation.
pub open spec fn kept_sum(s: Seq<i16>, n: int, total: int, total_sq: int) -> int
    decreases s.len(),
{
    if s.len() == 0 {
        0
    } else {
        kept_sum(s.drop_last(), n, total, total_sq) + if within_one_sd(
            n,
            total,
            total_sq,
            s.last() as int,
        ) {
            s.last() as int
        } else {
            0
        }
    }
}

/// Number of the values of `s` that lie within one standard deviation.
pub open spec fn kept_count(s: Seq<i16>, n: int, total: int, total_sq: int) -> int
    decreases s.len(),
{
    if s.len() == 0 {
        0
    } else {
        kept_count(s.drop_last(), n, total, total_sq) + if within_one_sd(
            n,
            total,
            total_sq,
            s.last() as int,
        ) {
            1int
        } else {
            0
        }
    }
}

/// Sum and number of the values the trimmed mean of `s` averages: those
/// within one standard deviation of the mean. With fewer than two values the
/// deviation is undefined, and all values are averaged; so they are, should
/// none lie within it.
pub open spec fn trimmed(s: Seq<i16>) -> (int, int) {
    let n = s.len() as int;
    let total = sum(s);
    let total_sq = sum_sq(s);
    if n >= 2 && kept_count(s, n, total, total_sq) > 0 {
        (kept_sum(s, n, total, total_sq), kept_count(s, n, total, total_sq))
    } else {
        (total, n)
    }
}

/// The trimmed mean of `s`, rounded down; none for no values.
pub open spec fn trimmed_mean(s: Seq<i16>) -> Option<int> {
    if s.len() == 0 {
        None
    } else {
        Some(trimmed(s).0 / trimmed(s).1)
    }
}

/// `c` tenths of a degree Celsius in tenths of a degree Fahrenheit, rounded
/// down.
pub open spec fn c_to_f(c: int) -> int {
    (9 * c) / 5 + 320
}

/// The trimmed mean of the Celsius values `s` in Fahrenheit
/// (`mean * 9 / 5 + 32`), rounded down once; none for no values.
pub open spec fn trimmed_mean_fahrenheit(s: Seq<i16>) -> Option<int> {
    if s.len() == 0 {
        None
    } else {
        Some((9 * trimmed(s).0) / (5 * trimmed(s).1) + 320)
    }
}

/// The temperatures of a history.
pub open spec fn temperatures(items: Seq<(i16, i16)>) -> Seq<i16> {
    items.map_values(|p: (i16, i16)| p.0)
}

/// The humidities of a history.
pub open spec fn humidities(items: Seq<(i16, i16)>) -> Seq<i16> {
    items.map_values(|p: (i16, i16)| p.1)
}

/// An optional machine integer as an optional mathematical one.
pub open spec fn opt_int(r: Option<i32>) -> Option<int> {
    match r {
        Some(v) => Some(v as int),
        None => None,
    }
}

proof fn lemma_mul_bound(a: int, b: int, ba: nat, bb: nat)
    requires
        -ba <= a <= ba,
        -bb <= b <= bb,
    ensures
        -(ba * bb) <= a * b <= ba * bb,
{
    assert(-(ba * bb) <= a * b <= ba * bb) by (nonlinear_arith)
        requires
            -ba <= a <= ba,
            -bb <= b <= bb,
    ;
}

proof fn lemma_div_bounds(a: int, d: int, lo: int, hi: int)
    requires
        d > 0,
        lo * d <= a <= hi * d,
    ensures
        lo <= a / d <= hi,
{
    lemma_div_is_ordered(lo * d, a, d);
    lemma_div_is_ordered(a, hi * d, d);
    assert(lo * d == d * lo) by (nonlinear_arith);
    assert(hi * d == d * hi) by (nonlinear_arith);
    lemma_div_multiples_vanish(lo, d);
    lemma_div_multiples_vanish(hi, d);
}

/// Sum and count of the values that the trimmed mean of `v` averages.
pub fn trimmed_parts(v: &Vec<i16>) -> (r: (i128, i128))
    requires
        v.len() <= MAX_CAPACITY,
    ensures
        r.0 as int == trimmed(v@).0,
        r.1 as int == trimmed(v@).1,
        v.len() > 0 ==> r.1 > 0,
        0 <= r.1 <= v.len(),
        -32768 * r.1 <= r.0 <= 32767 * r.1,
{
    let n = v.len();
    let ghost s = v@;
    let mut total: i128 = 0;
    let mut total_sq: i128 = 0;
    let mut i: usize = 0;
    assert(s.subrange(0, 0) =~= Seq::<i16>::empty());
    while i < n
        invariant
            n == v.len(),
            s == v@,
            n <= MAX_CAPACITY,
            i <= n,
            total as int == sum(s.subrange(0, i as int)),
            total_sq as int == sum_sq(s.subrange(0, i as int)),
            -32768 * i <= total <= 32767 * i,
            0 <= total_sq <= 1073741824 * i,
        decreases n - i,
    {
        let x = v[i] as i128;
        proof {
            let p = s.subrange(0, i + 1);
            assert(p.drop_last() =~= s.subrange(0, i as int));
            assert(p.last() == v[i as int]);
            lemma_mul_bound(x as int, x as int, 32768, 32768);
            assert(0 <= (x as int) * (x as int)) by (nonlinear_arith);
        }
        total = total + x;
        total_sq = total_sq + x * x;
        i = i + 1;
    }
    assert(s.subrange(0, n as int) =~= s);
    let nn = n as i128;
    let mut kept: i128 = 0;
    let mut count: i128 = 0;
    let mut j: usize = 0;
    proof {
        lemma_mul_bound(nn as int, total_sq as int, 16777216, 16777216 * 1073741824);
        lemma_mul_bound(total as int, total as int, 16777216 * 32768, 16777216 * 32768);
        lemma_mul_bound(
            nn as int,
            nn * total_sq - total * total,
            16777216,
            16777216 * 16777216 * 1073741824 * 2,
        );
    }
    let spread = nn * (nn * total_sq - total * total);
    assert(s.subrange(0, 0) =~= Seq::<i16>::empty());
    while j < n
        invariant
            n == v.len(),
            s == v@,
            n <= MAX_CAPACITY,
            nn == n,
            total as int == sum(s),
            total_sq as int == sum_sq(s),
            -32768 * n <= total <= 32767 * n,
            spread == nn * (nn * total_sq - total * total),
            j <= n,
            kept as int == kept_sum(s.subrange(0, j as int), n as int, total as int, total_sq as int),
            count as int == kept_count(s.subrange(0, j as int), n as int, total as int, total_sq as int),
            0 <= count <= j,
            -32768 * count <= kept <= 32767 * count,
        decreases n - j,
    {
        let x = v[j] as i128;
        proof {
            let p = s.subrange(0, j + 1);
            assert(p.drop_last() =~= s.subrange(0, j as int));
            assert(p.last() == v[j as int]);
            let b1: nat = 1099511627776;
            let b2: nat = 1208925819614629174706176;
            lemma_mul_bound(nn as int, x as int, 16777216, 32768);
            let d = nn * x - total;
            assert(-b1 <= d <= b1);
            lemma_mul_bound(d, d, b1, b1);
            assert(b1 * b1 == b2);
            lemma_mul_bound(nn - 1, d * d, 16777216, b2);
        }
        let dev = nn * x - total;
        if (nn - 1) * (dev * dev) <= spread {
            kept = kept + x;
            count = count + 1;
        }
        j = j + 1;
    }
    assert(s.subrange(0, n as int) =~= s);
    if n >= 2 && count > 0 {
        (kept, count)
    } else {
        (total, nn)
    }
}

/// The trimmed mean of `v`, rounded down; none when `v` is empty.
pub fn trimmed_mean_of(v: &Vec<i16>) -> (r: Option<i32>)
    requires
        v.len() <= MAX_CAPACITY,
    ensures
        opt_int(r) == trimmed_mean(v@),
{
    if v.len() == 0 {
        return None;
    }
    let (kept, count) = trimmed_parts(v);
    proof {
        lemma_div_bounds(kept as int, count as int, -32768, 32767);
    }
    match kept.checked_div_euclid(count) {
        Some(q) => Some(q as i32),
        None => None,
    }
}

/// The trimmed mean of the Celsius values `v`, in Fahrenheit, rounded down;
/// none when `v` is empty.
pub fn trimmed_mean_fahrenheit_of(v: &Vec<i16>) -> (r: Option<i32>)
    requires
        v.len() <= MAX_CAPACITY,
    ensures
        opt_int(r) == trimmed_mean_fahrenheit(v@),
{
    if v.len() == 0 {
        return None;
    }
    let (kept, count) = trimmed_parts(v);
    proof {
        lemma_div_bounds(9 * kept as int, 5 * count as int, -58983, 58981);
    }
    match (9 * kept).checked_div_euclid(5 * count) {
        Some(q) => Some((q + 320) as i32),
        None => None,
    }
}

/// A bounded history of samples, oldest first; once full, each new sample
/// evicts the oldest.
pub struct Environment {
    readings: AllocRingBuffer<(i16, i16)>,
}

impl Environment {
    /// The samples held, oldest first, as (temperature, humidity).
    pub closed spec fn items(&self) -> Seq<(i16, i16)> {
        ring_items(self.readings)
    }

    /// How many samples are held before the oldest is evicted.
    pub closed spec fn spec_capacity(&self) -> nat {
        ring_capacity(self.readings)
    }

    pub open spec fn wf(&self) -> bool {
        &&& self.items().len() <= self.spec_capacity()
        &&& 0 < self.spec_capacity() <= MAX_CAPACITY
        &&& forall|i: int|
            0 <= i < self.items().len() ==> 0 <= (#[trigger] self.items()[i]).1 <= 1000
    }

    /// An empty history of `initial_readings` samples, a power of two.
    pub fn with_readings(initial_readings: usize) -> (r: Environment)
        requires
            is_power_of_two(initial_readings as nat),
            initial_readings <= MAX_CAPACITY,
        ensures
            r.wf(),
            r.items() == Seq::<(i16, i16)>::empty(),
            r.spec_capacity() == initial_readings,
    {
        Environment { readings: ring_with_capacity(initial_readings) }
    }

    /// An empty history of the default size.
    pub fn new() -> (r: Environment)
        ensures
            r.wf(),
            r.items() == Seq::<(i16, i16)>::empty(),
            r.spec_capacity() == DEFAULT_INITIAL_READINGS,
    {
        proof {
            reveal_with_fuel(is_power_of_two, 4);
        }
        Environment::with_readings(DEFAULT_INITIAL_READINGS)
    }

    /// Records `reading` if it is valid; an invalid one changes nothing.
    pub fn add_reading(&mut self, reading: Sample)
        requires
            old(self).wf(),
        ensures
            final(self).wf(),
            final(self).spec_capacity() == old(self).spec_capacity(),
            final(self).items() == if reading.valid() {
                push_evict(
                    old(self).items(),
                    old(self).spec_capacity(),
                    (reading.temperature, reading.humidity),
                )
            } else {
                old(self).items()
            },
    {
        if 0 <= reading.humidity && reading.humidity <= 1000 {
            ring_push(&mut self.readings, (reading.temperature, reading.humidity));
        }
    }

    /// The samples held, oldest first.
    pub fn samples(&self) -> (r: Vec<Sample>)
        ensures
            r@.len() == self.items().len(),
            forall|i: int|
                0 <= i < r@.len() ==> (#[trigger] r@[i]).temperature == self.items()[i].0
                    && r@[i].humidity == self.items()[i].1,
    {
        let items = ring_to_vec(&self.readings);
        let mut out: Vec<Sample> = Vec::new();
        let mut i: usize = 0;
        while i < items.len()
            invariant
                items@ == self.items(),
                i <= items.len(),
                out@.len() == i,
                forall|k: int|
                    0 <= k < i ==> (#[trigger] out@[k]).temperature == items@[k].0
                        && out@[k].humidity == items@[k].1,
            decreases items.len() - i,
        {
            out.push(Sample { temperature: items[i].0, humidity: items[i].1 });
            i = i + 1;
        }
        out
    }

    /// The number of samples held.
    pub fn len(&self) -> (r: usize)
        ensures
            r == self.items().len(),
    {
        ring_to_vec(&self.readings).len()
    }

    /// How many samples are held before the oldest is evicted.
    pub fn capacity(&self) -> (r: usize)
        ensures
            r == self.spec_capacity(),
    {
        ring_capacity_of(&self.readings)
    }

    /// The de-noised temperature in tenths of a degree Fahrenheit, rounded
    /// down; none while no sample is held.
    pub fn temp(&self) -> (r: Option<i32>)
        requires
            self.wf(),
        ensures
            opt_int(r) == trimmed_mean_fahrenheit(temperatures(self.items())),
    {
        let items = ring_to_vec(&self.readings);
        let mut v: Vec<i16> = Vec::new();
        let mut i: usize = 0;
        while i < items.len()
            invariant
                items@ == self.items(),
                i <= items.len(),
                v@ == temperatures(items@.subrange(0, i as int)),
            decreases items.len() - i,
        {
            v.push(items[i].0);
            i = i + 1;
            assert(v@ =~= temperatures(items@.subrange(0, i as int)));
        }
        assert(items@.subrange(0, i as int) =~= items@);
        trimmed_mean_fahrenheit_of(&v)
    }

    /// The de-noised humidity in tenths of a percent, rounded down; none
    /// while no sample is held.
    pub fn humidity(&self) -> (r: Option<i32>)
        requires
            self.wf(),
        ensures
            opt_int(r) == trimmed_mean(humidities(self.items())),
    {
        let items = ring_to_vec(&self.readings);
        let mut v: Vec<i16> = Vec::new();
        let mut i: usize = 0;
        while i < items.len()
            invariant
                items@ == self.items(),
                i <= items.len(),
                v@ == humidities(items@.subrange(0, i as int)),
            decreases items.len() - i,
        {
            v.push(items[i].1);
            i = i + 1;
            assert(v@ =~= humidities(items@.subrange(0, i as int)));
        }
        assert(items@.subrange(0, i as int) =~= items@);
        trimmed_mean_of(&v)
    }
}

impl Default for Environment {
    /// An empty history of the default size.
    fn default() -> (r: Environment)
        ensures
            r.wf(),
            r.items() == Seq::<(i16, i16)>::empty(),
            r.spec_capacity() == DEFAULT_INITIAL_READINGS,
    {
        Environment::new()
    }
}

/// The history left by pushing each of `xs`, in order, onto `items` in a
/// ring of capacity `cap`.
pub open spec fn push_all(items: Seq<(i16, i16)>, cap: nat, xs: Seq<(i16, i16)>) -> Seq<(i16, i16)>
    decreases xs.len(),
{
    if xs.len() == 0 {
        items
    } else {
        push_evict(push_all(items, cap, xs.drop_last()), cap, xs.last())
    }
}

proof fn lemma_push_all_fits(cap: nat, xs: Seq<(i16, i16)>)
    requires
        xs.len() <= cap,
    ensures
        push_all(Seq::empty(), cap, xs) == xs,
    decreases xs.len(),
{
    if xs.len() > 0 {
        lemma_push_all_fits(cap, xs.drop_last());
        assert(xs.drop_last().push(xs.last()) =~= xs);
    }
}

/// Pushing one more sample than the capacity into an empty history leaves
/// exactly `cap` samples: all but the first, in order.
pub proof fn lemma_eviction(cap: nat, xs: Seq<(i16, i16)>)
    requires
        cap > 0,
        xs.len() == cap + 1,
    ensures
        push_all(Seq::empty(), cap, xs).len() == cap,
        push_all(Seq::empty(), cap, xs) == xs.drop_first(),
{
    let d = xs.drop_last();
    lemma_push_all_fits(cap, d);
    assert(d.drop_first().push(xs.last()) =~= xs.drop_first());
}

proof fn lemma_constant_sums(s: Seq<i16>, v: i16)
    requires
        forall|i: int| 0 <= i < s.len() ==> s[i] == v,
    ensures
        sum(s) == s.len() * v,
        sum_sq(s) == s.len() * (v * v),
    decreases s.len(),
{
    if s.len() > 0 {
        let d = s.drop_last();
        assert forall|i: int| 0 <= i < d.len() implies d[i] == v by {
            assert(d[i] == s[i]);
        }
        lemma_constant_sums(d, v);
        let n = s.len() as int;
        assert(sum(s) == (n - 1) * v + v);
        assert((n - 1) * v + v == n * v) by (nonlinear_arith);
        assert((n - 1) * (v * v) + v * v == n * (v * v)) by (nonlinear_arith);
    }
}

proof fn lemma_all_kept(s: Seq<i16>, n: int, total: int, total_sq: int)
    requires
        forall|i: int| 0 <= i < s.len() ==> within_one_sd(n, total, total_sq, s[i] as int),
    ensures
        kept_count(s, n, total, total_sq) == s.len(),
        kept_sum(s, n, total, total_sq) == sum(s),
    decreases s.len(),
{
    if s.len() > 0 {
        let d = s.drop_last();
        assert forall|i: int| 0 <= i < d.len() implies within_one_sd(
            n,
            total,
            total_sq,
            d[i] as int,
        ) by {
            assert(d[i] == s[i]);
        }
        lemma_all_kept(d, n, total, total_sq);
        assert(within_one_sd(n, total, total_sq, s[s.len() - 1] as int));
    }
}

/// `n >= 1` copies of one value: the spread is zero, every copy is kept,
/// and the trimmed mean is the value itself (in Fahrenheit, its conversion).
pub proof fn lemma_constant_history(s: Seq<i16>, v: i16)
    requires
        s.len() >= 1,
        forall|i: int| 0 <= i < s.len() ==> s[i] == v,
    ensures
        s.len() * sum_sq(s) - sum(s) * sum(s) == 0,
        trimmed(s) == (sum(s), s.len() as int),
        trimmed_mean(s) == Some(v as int),
        trimmed_mean_fahrenheit(s) == Some(c_to_f(v as int)),
{
    let n = s.len() as int;
    let vi = v as int;
    lemma_constant_sums(s, v);
    assert(n * (n * (vi * vi)) - (n * vi) * (n * vi) == 0) by (nonlinear_arith);
    assert forall|i: int| 0 <= i < s.len() implies within_one_sd(n, sum(s), sum_sq(s), s[i] as int)
        by {
        assert(n * vi - n * vi == 0);
        assert((n - 1) * ((n * vi - n * vi) * (n * vi - n * vi)) == 0) by (nonlinear_arith);
    }
    lemma_all_kept(s, n, sum(s), sum_sq(s));
    assert(n * vi == vi * n) by (nonlinear_arith);
    lemma_div_multiples_vanish(vi, n);
    let q = (9 * vi) / 5;
    let r = (9 * vi) % 5;
    lemma_fundamental_div_mod(9 * vi, 5);
    assert(9 * (n * vi) == (5 * n) * q + r * n) by (nonlinear_arith)
        requires
            9 * vi == 5 * q + r,
    ;
    assert(0 <= r * n < 5 * n) by (nonlinear_arith)
        requires
            0 <= r < 5,
            n >= 1,
    ;
    lemma_div_multiples_vanish_fancy(q, r * n, 5 * n);
}

/// Adding one valid sample `n` times (`1 <= n <= cap`) to an empty history
/// of capacity `cap` leaves `n` copies, whose de-noised humidity is the
/// sample's and whose de-noised temperature is the sample's in Fahrenheit.
pub proof fn lemma_repeated_sample(cap: nat, x: Sample, n: nat)
    requires
        x.valid(),
        1 <= n <= cap,
    ensures
        push_all(Seq::empty(), cap, Seq::new(n, |i: int| (x.temperature, x.humidity))).len() == n,
        trimmed_mean(
            humidities(push_all(Seq::empty(), cap, Seq::new(n, |i: int| (x.temperature, x.humidity)))),
        ) == Some(x.humidity as int),
        trimmed_mean_fahrenheit(
            temperatures(push_all(Seq::empty(), cap, Seq::new(n, |i: int| (x.temperature, x.humidity)))),
        ) == Some(c_to_f(x.temperature as int)),
{
    let xs = Seq::new(n, |i: int| (x.temperature, x.humidity));
    lemma_push_all_fits(cap, xs);
    lemma_constant_history(humidities(xs), x.humidity);
    lemma_constant_history(temperatures(xs), x.temperature);
}

} // verus!
