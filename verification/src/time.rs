//! Time offsets, and how a decimal number of seconds is read as one.

use crate::text::to_chars;
use vstd::prelude::*;

verus! {

/// A non-negative offset in time: whole seconds and the nanoseconds beyond them.
#[derive(Clone, Copy, Debug, PartialEq, Eq, Structural)]
pub struct TimeOffset {
    /// The whole seconds.
    pub secs: u64,
    /// The nanoseconds beyond the whole seconds: less than a second's worth.
    pub nanos: u32,
}

impl TimeOffset {
    /// The nanoseconds stay below one second.
    pub open spec fn wf(self) -> bool {
        self.nanos < 1_000_000_000
    }

    /// The offset in nanoseconds.
    pub open spec fn as_nanos(self) -> nat {
        (self.secs * 1_000_000_000 + self.nanos) as nat
    }

    /// The offset of no time at all.
    pub fn zero() -> (r: TimeOffset)
        ensures
            r == (TimeOffset { secs: 0, nanos: 0 }),
            r.wf(),
            r.as_nanos() == 0,
    {
        TimeOffset { secs: 0, nanos: 0 }
    }

    /// The offset of `millis` milliseconds.
    pub fn from_millis(millis: u64) -> (r: TimeOffset)
        ensures
            r.wf(),
            r.as_nanos() == millis * 1_000_000,
            r.secs == millis / 1000,
            r.nanos == (millis % 1000) * 1_000_000,
    {
        let rest: u32 = (millis % 1000) as u32;
        TimeOffset { secs: millis / 1000, nanos: rest * 1_000_000 }
    }

    /// The whole milliseconds of the offset.
    pub fn as_millis(&self) -> (r: u128)
        ensures
            r == self.as_nanos() / 1_000_000,
    {
        let whole: u128 = self.secs as u128 * 1000;
        let rest: u128 = (self.nanos / 1_000_000) as u128;
        whole + rest
    }
}

/// Ten to the power `e`.
pub open spec fn pow10(e: nat) -> nat
    decreases e,
{
    if e == 0 {
        1
    } else {
        10 * pow10((e - 1) as nat)
    }
}

/// `c` is one of the ten decimal digits.
pub open spec fn is_digit(c: char) -> bool {
    '0' <= c && c <= '9'
}

/// The number that a decimal digit stands for; zero for any other character.
pub open spec fn digit_value(c: char) -> nat {
    if is_digit(c) {
        (c as int - '0' as int) as nat
    } else {
        0
    }
}

/// Every character of `s` is a decimal digit.
pub open spec fn all_digits(s: Seq<char>) -> bool {
    forall|i: int| 0 <= i < s.len() ==> is_digit(#[trigger] s[i])
}

/// The number that the digits of `s` write in base ten; zero for no digits.
pub open spec fn digits_value(s: Seq<char>) -> nat
    decreases s.len(),
{
    if s.len() == 0 {
        0
    } else {
        digits_value(s.drop_last()) * 10 + digit_value(s.last())
    }
}

/// How many characters stand before the first point of `text`: all of them
/// where it has no point.
pub open spec fn point_at(text: Seq<char>) -> int
    decreases text.len(),
{
    if text.len() == 0 || text[0] == '.' {
        0
    } else {
        1 + point_at(text.drop_first())
    }
}

/// What stands before the first point of `text`.
pub open spec fn whole_part(text: Seq<char>) -> Seq<char> {
    text.take(point_at(text))
}

/// What stands after the first point of `text`: nothing where it has no point.
pub open spec fn fraction_part(text: Seq<char>) -> Seq<char> {
    if point_at(text) < text.len() {
        text.skip(point_at(text) + 1)
    } else {
        Seq::empty()
    }
}

/// `text` writes a decimal number: digits, then possibly a point and more
/// digits, with a digit on at least one side of the point. No sign, no
/// exponent, no space.
pub open spec fn is_decimal(text: Seq<char>) -> bool {
    &&& all_digits(whole_part(text))
    &&& all_digits(fraction_part(text))
    &&& whole_part(text).len() + fraction_part(text).len() > 0
}

/// The nanoseconds that the digits after the point stand for. The first nine
/// digits count; what follows them is less than a nanosecond and is left out.
pub open spec fn fraction_nanos(fraction: Seq<char>) -> nat {
    if fraction.len() >= 9 {
        digits_value(fraction.take(9))
    } else {
        digits_value(fraction) * pow10((9 - fraction.len()) as nat)
    }
}

/// The offset that `text` writes in seconds: the number it writes as a
/// decimal, cut to whole nanoseconds. `None` where `text` is no decimal
/// number, or its whole seconds are more than 64 bits hold.
pub open spec fn seconds_of(text: Seq<char>) -> Option<TimeOffset> {
    if is_decimal(text) && digits_value(whole_part(text)) <= u64::MAX {
        Some(
            TimeOffset {
                secs: digits_value(whole_part(text)) as u64,
                nanos: fraction_nanos(fraction_part(text)) as u32,
            },
        )
    } else {
        None
    }
}

/// No power of ten is zero.
proof fn lemma_pow10_positive(e: nat)
    ensures
        pow10(e) > 0,
    decreases e,
{
    if e > 0 {
        lemma_pow10_positive((e - 1) as nat);
    }
}

/// A larger exponent gives no smaller power of ten.
proof fn lemma_pow10_grows(a: nat, b: nat)
    requires
        a <= b,
    ensures
        pow10(a) <= pow10(b),
    decreases b - a,
{
    if a < b {
        lemma_pow10_grows(a, (b - 1) as nat);
    }
}

/// Ten to a sum is the product of the powers; no power of ten is zero.
proof fn lemma_pow10_adds(a: nat, b: nat)
    ensures
        pow10(a + b) == pow10(a) * pow10(b),
        pow10(a) > 0,
        pow10(b) > 0,
    decreases a,
{
    if a == 0 {
        lemma_pow10_positive(b);
        assert(pow10(a + b) == pow10(b));
        assert(pow10(a) * pow10(b) == pow10(b)) by (nonlinear_arith)
            requires
                pow10(a) == 1,
        ;
    } else {
        lemma_pow10_adds((a - 1) as nat, b);
        let x = pow10((a - 1) as nat);
        let y = pow10(b);
        assert((a + b - 1) as nat == (a - 1) as nat + b);
        assert(pow10(a + b) == 10 * (x * y));
        assert(pow10(a) == 10 * x);
        assert(10 * (x * y) == (10 * x) * y) by (nonlinear_arith);
    }
}

/// Ten to the ninth is a thousand million.
proof fn lemma_pow10_nine()
    ensures
        pow10(9) == 1_000_000_000,
{
    reveal_with_fuel(pow10, 10);
}

/// Where the first point of a text is: no point before it, and a point at it
/// unless it is the end.
pub proof fn lemma_point_at(text: Seq<char>)
    ensures
        0 <= point_at(text) <= text.len(),
        forall|i: int| 0 <= i < point_at(text) ==> text[i] != '.',
        point_at(text) < text.len() ==> text[point_at(text)] == '.',
    decreases text.len(),
{
    if text.len() == 0 || text[0] == '.' {
    } else {
        let rest = text.drop_first();
        lemma_point_at(rest);
        assert forall|i: int| 0 <= i < point_at(text) implies text[i] != '.' by {
            if i > 0 {
                assert(text[i] == rest[i - 1]);
            }
        }
        if point_at(text) < text.len() {
            assert(text[point_at(text)] == rest[point_at(rest)]);
        }
    }
}

/// The first point is the only index with no point before it and a point at
/// it (or the end).
pub proof fn lemma_point_at_is(text: Seq<char>, at: int)
    requires
        0 <= at <= text.len(),
        forall|i: int| 0 <= i < at ==> text[i] != '.',
        at < text.len() ==> text[at] == '.',
    ensures
        point_at(text) == at,
{
    lemma_point_at(text);
    let p = point_at(text);
    if p < at {
        assert(text[p] != '.');
    }
    if at < p {
        assert(text[at] != '.');
    }
}

/// Appending a digit multiplies the value by ten and adds the digit.
proof fn lemma_digits_value_push(s: Seq<char>, c: char)
    ensures
        digits_value(s.push(c)) == digits_value(s) * 10 + digit_value(c),
{
    assert(s.push(c).drop_last() =~= s);
}

/// The digits of a prefix write no more than the digits of the whole.
proof fn lemma_digits_value_prefix(s: Seq<char>, k: int)
    requires
        0 <= k <= s.len(),
    ensures
        digits_value(s.take(k)) <= digits_value(s),
    decreases s.len() - k,
{
    if k == s.len() {
        assert(s.take(k) =~= s);
    } else {
        lemma_digits_value_prefix(s, k + 1);
        assert(s.take(k + 1) =~= s.take(k).push(s[k]));
        lemma_digits_value_push(s.take(k), s[k]);
    }
}

/// `n` digits write a number below ten to the `n`.
proof fn lemma_digits_value_bound(s: Seq<char>)
    ensures
        digits_value(s) < pow10(s.len()),
    decreases s.len(),
{
    if s.len() > 0 {
        lemma_digits_value_bound(s.drop_last());
        assert(digit_value(s.last()) <= 9);
    }
}

/// The digits of two texts, one after the other, write the first number
/// shifted by the length of the second text, plus the second number.
proof fn lemma_digits_value_concat(a: Seq<char>, b: Seq<char>)
    ensures
        digits_value(a + b) == digits_value(a) * pow10(b.len()) + digits_value(b),
    decreases b.len(),
{
    if b.len() == 0 {
        assert(a + b =~= a);
        assert(digits_value(a) * pow10(0) == digits_value(a)) by (nonlinear_arith)
            requires
                pow10(0) == 1,
        ;
    } else {
        let front = b.drop_last();
        lemma_digits_value_concat(a, front);
        assert((a + b).drop_last() =~= a + front);
        assert((a + b).last() == b.last());
        let x = digits_value(a);
        let p = pow10(front.len());
        assert(pow10(b.len()) == 10 * p);
        assert((x * p + digits_value(front)) * 10 == x * (10 * p) + digits_value(front) * 10)
            by (nonlinear_arith);
    }
}

/// The fraction digits never amount to a whole second.
pub proof fn lemma_fraction_nanos_bound(fraction: Seq<char>)
    ensures
        fraction_nanos(fraction) < 1_000_000_000,
{
    lemma_pow10_nine();
    if fraction.len() >= 9 {
        lemma_digits_value_bound(fraction.take(9));
    } else {
        let k = fraction.len();
        let m = (9 - k) as nat;
        lemma_digits_value_bound(fraction);
        lemma_pow10_adds(k, m);
        assert(digits_value(fraction) * pow10(m) < pow10(k) * pow10(m)) by (nonlinear_arith)
            requires
                digits_value(fraction) < pow10(k),
                pow10(m) > 0,
        ;
    }
}

/// Reading cuts a number to whole nanoseconds and loses nothing else: with
/// `n` the digits of a decimal number read as one integer, and `k` of them
/// after the point, the number is `n / 10^k` seconds, and the offset read
/// is at most that and less than one nanosecond short of it.
pub proof fn lemma_seconds_cut(text: Seq<char>)
    requires
        seconds_of(text) is Some,
    ensures
        ({
            let offset = seconds_of(text)->0;
            let k = fraction_part(text).len();
            let n = digits_value(whole_part(text) + fraction_part(text));
            &&& offset.wf()
            &&& offset.as_nanos() * pow10(k) <= n * 1_000_000_000
            &&& n * 1_000_000_000 < (offset.as_nanos() + 1) * pow10(k)
        }),
{
    let whole = whole_part(text);
    let fraction = fraction_part(text);
    let offset = seconds_of(text)->0;
    let k = fraction.len();
    let w = digits_value(whole);
    let f = digits_value(fraction);
    let n = digits_value(whole + fraction);
    let nanos = fraction_nanos(fraction);
    lemma_fraction_nanos_bound(fraction);
    lemma_digits_value_concat(whole, fraction);
    lemma_pow10_positive(k);
    lemma_pow10_nine();
    let total = offset.as_nanos();
    assert(total == w * 1_000_000_000 + nanos);
    assert(n == w * pow10(k) + f);
    assert((total + 1) * pow10(k) == total * pow10(k) + pow10(k)) by (nonlinear_arith);
    if k <= 9 {
        let m = (9 - k) as nat;
        if k == 9 {
            assert(fraction.take(9) =~= fraction);
            assert(f * pow10(m) == f) by (nonlinear_arith)
                requires
                    pow10(m) == 1,
            ;
        }
        assert(nanos == f * pow10(m));
        lemma_pow10_adds(m, k);
        assert((w * 1_000_000_000 + f * pow10(m)) * pow10(k) == (w * pow10(k) + f) * 1_000_000_000)
            by (nonlinear_arith)
            requires
                pow10(m) * pow10(k) == 1_000_000_000,
        ;
    } else {
        let head = fraction.take(9);
        let tail = fraction.skip(9);
        let m = (k - 9) as nat;
        assert(head + tail =~= fraction);
        lemma_digits_value_concat(head, tail);
        lemma_digits_value_bound(tail);
        lemma_pow10_adds(m, 9);
        let r = digits_value(tail);
        assert(f == nanos * pow10(m) + r);
        assert(r < pow10(m));
        assert((w * pow10(k) + (nanos * pow10(m) + r)) * 1_000_000_000 == (w * 1_000_000_000
            + nanos) * pow10(k) + r * 1_000_000_000) by (nonlinear_arith)
            requires
                pow10(m) * 1_000_000_000 == pow10(k),
        ;
        assert(r * 1_000_000_000 < pow10(k)) by (nonlinear_arith)
            requires
                r < pow10(m),
                pow10(m) * 1_000_000_000 == pow10(k),
        ;
    }
}

/// A number written with at most nine digits after the point is read
/// exactly: the offset is `n / 10^k` seconds, with `n` the digits read as
/// one integer and `k` of them after the point.
pub proof fn lemma_seconds_exact(text: Seq<char>)
    requires
        seconds_of(text) is Some,
        fraction_part(text).len() <= 9,
    ensures
        seconds_of(text)->0.as_nanos() * pow10(fraction_part(text).len()) == digits_value(
            whole_part(text) + fraction_part(text),
        ) * 1_000_000_000,
{
    let whole = whole_part(text);
    let fraction = fraction_part(text);
    let k = fraction.len();
    let m = (9 - k) as nat;
    let w = digits_value(whole);
    let f = digits_value(fraction);
    lemma_fraction_nanos_bound(fraction);
    lemma_digits_value_concat(whole, fraction);
    lemma_pow10_adds(m, k);
    lemma_pow10_nine();
    if k == 9 {
        assert(fraction.take(9) =~= fraction);
        assert(f * pow10(m) == f) by (nonlinear_arith)
            requires
                pow10(m) == 1,
        ;
    }
    assert(fraction_nanos(fraction) == f * pow10(m));
    assert((w * 1_000_000_000 + f * pow10(m)) * pow10(k) == (w * pow10(k) + f) * 1_000_000_000)
        by (nonlinear_arith)
        requires
            pow10(m) * pow10(k) == 1_000_000_000,
    ;
}

/// Reads one decimal digit.
fn digit_of(c: char) -> (r: Option<u8>)
    ensures
        match r {
            Some(d) => is_digit(c) && d == digit_value(c),
            None => !is_digit(c),
        },
{
    match c {
        '0' => Some(0),
        '1' => Some(1),
        '2' => Some(2),
        '3' => Some(3),
        '4' => Some(4),
        '5' => Some(5),
        '6' => Some(6),
        '7' => Some(7),
        '8' => Some(8),
        '9' => Some(9),
        _ => None,
    }
}

/// Reads the whole seconds of a decimal number: the digits before the first
/// point. Returns them with the index at which they end. Fails where a
/// character before the first point is no digit, and where the digits
/// write more than 64 bits hold.
fn read_whole(chars: &Vec<char>) -> (r: Option<(u64, usize)>)
    ensures
        match r {
            Some((secs, end)) => {
                &&& end == point_at(chars@)
                &&& all_digits(whole_part(chars@))
                &&& secs == digits_value(whole_part(chars@))
            },
            None => !all_digits(whole_part(chars@)) || digits_value(whole_part(chars@)) > u64::MAX,
        },
{
    let n = chars.len();
    let mut secs: u64 = 0;
    let mut i: usize = 0;
    proof {
        lemma_point_at(chars@);
    }
    while i < n && chars[i] != '.'
        invariant
            i <= n,
            n == chars.len(),
            i <= point_at(chars@),
            forall|k: int| 0 <= k < i ==> is_digit(#[trigger] chars@[k]),
            secs == digits_value(chars@.take(i as int)),
        decreases n - i,
    {
        let ghost whole = whole_part(chars@);
        proof {
            lemma_point_at(chars@);
            assert(whole[i as int] == chars@[i as int]);
            assert(whole.take(i + 1) =~= chars@.take(i as int).push(chars@[i as int]));
            lemma_digits_value_push(chars@.take(i as int), chars@[i as int]);
            lemma_digits_value_prefix(whole, i + 1);
        }
        let d = match digit_of(chars[i]) {
            Some(d) => d,
            None => {
                return None;
            },
        };
        let next = match secs.checked_mul(10) {
            Some(tens) => tens.checked_add(d as u64),
            None => None,
        };
        secs = match next {
            Some(value) => value,
            None => {
                return None;
            },
        };
        proof {
            assert(chars@.take(i + 1) =~= whole.take(i + 1));
        }
        i += 1;
    }
    proof {
        lemma_point_at_is(chars@, i as int);
    }
    Some((secs, i))
}

/// Reads the nanoseconds of a decimal number: the digits from index `start`
/// on, of which the first nine count. Fails where one of the characters is
/// no digit.
fn read_fraction(chars: &Vec<char>, start: usize) -> (r: Option<u32>)
    requires
        start <= chars.len(),
    ensures
        match r {
            Some(nanos) => all_digits(chars@.skip(start as int)) && nanos == fraction_nanos(
                chars@.skip(start as int),
            ),
            None => !all_digits(chars@.skip(start as int)),
        },
{
    let n = chars.len();
    let ghost fraction = chars@.skip(start as int);
    let mut nanos: u32 = 0;
    let mut taken: usize = 0;
    let mut j: usize = start;
    while j < n
        invariant
            start <= j <= n,
            n == chars.len(),
            fraction == chars@.skip(start as int),
            forall|k: int| 0 <= k < j - start ==> is_digit(#[trigger] fraction[k]),
            taken == if j - start < 9 { j - start } else { 9 },
            nanos == digits_value(fraction.take(taken as int)),
        decreases n - j,
    {
        assert(fraction[j - start] == chars@[j as int]);
        let d = match digit_of(chars[j]) {
            Some(d) => d,
            None => {
                return None;
            },
        };
        if taken < 9 {
            proof {
                let sofar = fraction.take(taken as int);
                assert(fraction.take(taken + 1) =~= sofar.push(chars@[j as int]));
                lemma_digits_value_push(sofar, chars@[j as int]);
                lemma_digits_value_bound(fraction.take(taken + 1));
                lemma_pow10_grows((taken + 1) as nat, 9);
                lemma_pow10_nine();
            }
            nanos = nanos * 10 + d as u32;
            taken += 1;
        }
        j += 1;
    }
    // Fewer than nine digits: scale what they write up to nanoseconds.
    let ghost digits = taken;
    let ghost read = nanos;
    proof {
        lemma_fraction_nanos_bound(fraction);
        if fraction.len() < 9 {
            assert(fraction.take(taken as int) =~= fraction);
        }
        assert(read * pow10(0) == read) by (nonlinear_arith)
            requires
                pow10(0) == 1,
        ;
    }
    while taken < 9
        invariant
            digits <= taken <= 9,
            nanos == read * pow10((taken - digits) as nat),
            read * pow10((9 - digits) as nat) < 1_000_000_000,
        decreases 9 - taken,
    {
        proof {
            let now = pow10((taken - digits) as nat);
            let next = pow10((taken + 1 - digits) as nat);
            let last = pow10((9 - digits) as nat);
            lemma_pow10_grows((taken + 1 - digits) as nat, (9 - digits) as nat);
            assert(next == 10 * now);
            assert(read * next <= read * last) by (nonlinear_arith)
                requires
                    next <= last,
            ;
            assert(read * next == read * now * 10) by (nonlinear_arith)
                requires
                    next == 10 * now,
            ;
        }
        nanos = nanos * 10;
        taken += 1;
    }
    Some(nanos)
}

/// Reads a decimal number of seconds, such as `12`, `1.54` or `.5`, as a time
/// offset, cut to whole nanoseconds.
pub fn parse_seconds(text: &str) -> (r: Option<TimeOffset>)
    ensures
        r == seconds_of(text@),
        r matches Some(offset) ==> offset.wf(),
{
    let chars = to_chars(text);
    let (secs, point) = match read_whole(&chars) {
        Some(read) => read,
        None => {
            return None;
        },
    };
    proof {
        lemma_point_at(chars@);
        lemma_fraction_nanos_bound(fraction_part(chars@));
    }
    let start: usize = if point < chars.len() {
        point + 1
    } else {
        point
    };
    assert(fraction_part(chars@) =~= chars@.skip(start as int));
    let nanos = match read_fraction(&chars, start) {
        Some(nanos) => nanos,
        None => {
            return None;
        },
    };
    if point == 0 && start == chars.len() {
        // No digit on either side of the point.
        return None;
    }
    Some(TimeOffset { secs, nanos })
}

} // verus!
