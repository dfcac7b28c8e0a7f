//! Scale factors and the scale transform.
//!
//! A scale factor is a single-precision binary floating-point number, held
//! by its bit pattern: one sign bit, eight exponent bits, twenty-three
//! fraction bits. Every finite number of that format is a whole multiple of
//! 2^-149, and the contracts below speak of that multiple, `units`.

use vstd::prelude::*;
use vstd::arithmetic::power2::*;
use vstd::arithmetic::div_mod::*;
use vstd::bits::*;
use crate::block::{
    ends_in_cr,
    is_tidy,
    join_lines,
    law_lines_of_joined,
    lines_of,
    RenderedBlock,
};

verus! {

/// The magnitude, in units of 2^-149, of the finite number with exponent
/// field `exponent` and fraction field `fraction`.
pub open spec fn units_of(exponent: nat, fraction: nat) -> nat {
    if exponent == 0 {
        fraction
    } else {
        (0x80_0000 + fraction) * pow2((exponent - 1) as nat)
    }
}

/// A scale factor, by the bits of its single-precision representation.
#[derive(Clone, Copy, Debug, PartialEq, Eq, Structural)]
pub struct ScaleFactor {
    pub bits: u32,
}

impl ScaleFactor {
    /// The sign bit is set.
    pub open spec fn negative(self) -> bool {
        self.bits >= 0x8000_0000
    }

    /// The exponent field.
    pub open spec fn exponent(self) -> nat {
        ((self.bits as nat) / 0x80_0000) % 256
    }

    /// The fraction field.
    pub open spec fn fraction(self) -> nat {
        (self.bits as nat) % 0x80_0000
    }

    /// The bits stand for no number.
    pub open spec fn is_nan(self) -> bool {
        self.exponent() == 255 && self.fraction() != 0
    }

    /// The bits stand for an infinity.
    pub open spec fn is_infinite(self) -> bool {
        self.exponent() == 255 && self.fraction() == 0
    }

    /// The magnitude of a finite factor in units of 2^-149.
    pub open spec fn units(self) -> nat {
        units_of(self.exponent(), self.fraction())
    }

    /// The factor is a number and is at most 1.
    pub open spec fn at_most_one(self) -> bool {
        !self.is_nan() && (self.negative() || (!self.is_infinite() && self.units() <= pow2(149)))
    }

    /// The factor is a number and is at least 2.
    pub open spec fn at_least_two(self) -> bool {
        !self.is_nan() && !self.negative() && (self.is_infinite() || self.units() >= 2 * pow2(149))
    }

    /// The factor is exactly 1.
    pub open spec fn is_one(self) -> bool {
        !self.negative() && self.exponent() != 255 && self.units() == pow2(149)
    }

    /// The factor is a number and is at most 0.
    pub open spec fn at_most_zero(self) -> bool {
        !self.is_nan() && (self.negative() || (!self.is_infinite() && self.units() == 0))
    }

    /// The factor is a number and is greater than 10.
    pub open spec fn above_ten(self) -> bool {
        !self.is_nan() && !self.negative() && (self.is_infinite() || self.units() > 10 * pow2(149))
    }

    /// The factor rounded to the nearest whole number, halves away from
    /// zero, as a repeat count: 0 for what is no number or is negative, and
    /// no more than the greatest `usize`.
    pub open spec fn rounded(self) -> nat {
        if self.is_nan() || self.negative() {
            0
        } else if self.is_infinite() {
            usize::MAX as nat
        } else {
            let nearest = (self.units() + pow2(148)) / pow2(149);
            if nearest > usize::MAX {
                usize::MAX as nat
            } else {
                nearest
            }
        }
    }

    /// The factor with the given bit pattern.
    pub fn from_bits(bits: u32) -> (factor: ScaleFactor)
        ensures
            factor.bits == bits,
    {
        ScaleFactor { bits }
    }

    /// The factor 1.
    pub fn one() -> (factor: ScaleFactor)
        ensures
            factor.bits == 0x3F80_0000,
            factor.is_one(),
    {
        let factor = ScaleFactor { bits: 0x3F80_0000 };
        proof {
            lemma_against_one(127, 0);
        }
        factor
    }

    /// The bit pattern of the factor.
    pub fn to_bits(&self) -> (bits: u32)
        ensures
            bits == self.bits,
    {
        self.bits
    }

    /// Reads the sign bit.
    fn sign_bit(&self) -> (set: bool)
        ensures
            set == self.negative(),
    {
        self.bits >= 0x8000_0000
    }

    /// Reads the exponent field.
    fn exponent_field(&self) -> (e: u32)
        ensures
            e == self.exponent(),
            e <= 255,
    {
        let bits = self.bits;
        assert((bits >> 23) & 0xff == (bits / 0x80_0000) % 256) by (bit_vector);
        (bits >> 23) & 0xff
    }

    /// Reads the fraction field.
    fn fraction_field(&self) -> (f: u32)
        ensures
            f == self.fraction(),
            f < 0x80_0000,
    {
        let bits = self.bits;
        assert(bits & 0x7f_ffff == bits % 0x80_0000) by (bit_vector);
        bits & 0x7f_ffff
    }

    /// Tells whether the bits stand for no number.
    pub fn is_not_a_number(&self) -> (yes: bool)
        ensures
            yes == self.is_nan(),
    {
        let e = self.exponent_field();
        let f = self.fraction_field();
        e == 255 && f != 0
    }

    /// Tells whether the factor is a number and at most 1.
    pub fn is_at_most_one(&self) -> (yes: bool)
        ensures
            yes == self.at_most_one(),
    {
        let e = self.exponent_field();
        let f = self.fraction_field();
        if e == 255 && f != 0 {
            return false;
        }
        if self.sign_bit() {
            return true;
        }
        if e == 255 {
            return false;
        }
        proof {
            lemma_against_one(e as nat, f as nat);
        }
        e < 127 || (e == 127 && f == 0)
    }

    /// Tells whether the factor is a number and at least 2.
    pub fn is_at_least_two(&self) -> (yes: bool)
        ensures
            yes == self.at_least_two(),
    {
        let e = self.exponent_field();
        let f = self.fraction_field();
        if (e == 255 && f != 0) || self.sign_bit() {
            return false;
        }
        if e == 255 {
            return true;
        }
        proof {
            lemma_against_one(e as nat, f as nat);
        }
        e >= 128
    }

    /// Tells whether the factor is exactly 1.
    pub fn is_exactly_one(&self) -> (yes: bool)
        ensures
            yes == self.is_one(),
    {
        let e = self.exponent_field();
        let f = self.fraction_field();
        if self.sign_bit() || e == 255 {
            return false;
        }
        proof {
            lemma_against_one(e as nat, f as nat);
        }
        e == 127 && f == 0
    }

    /// Tells whether the factor is a number and at most 0.
    pub fn is_at_most_zero(&self) -> (yes: bool)
        ensures
            yes == self.at_most_zero(),
    {
        let e = self.exponent_field();
        let f = self.fraction_field();
        if e == 255 && f != 0 {
            return false;
        }
        if self.sign_bit() {
            return true;
        }
        if e == 255 {
            return false;
        }
        proof {
            if e > 0 {
                lemma_units_range(e as nat, f as nat);
                lemma_pow2_pos((e + 22) as nat);
            }
        }
        e == 0 && f == 0
    }

    /// Tells whether the factor is a number and greater than 10.
    pub fn is_above_ten(&self) -> (yes: bool)
        ensures
            yes == self.above_ten(),
    {
        let e = self.exponent_field();
        let f = self.fraction_field();
        if (e == 255 && f != 0) || self.sign_bit() {
            return false;
        }
        if e == 255 {
            return true;
        }
        proof {
            lemma_against_ten(e as nat, f as nat);
        }
        e > 130 || (e == 130 && f > 0x20_0000)
    }

    /// The factor rounded to a repeat count.
    pub fn round(&self) -> (count: usize)
        ensures
            count == self.rounded(),
    {
        let e = self.exponent_field();
        let f = self.fraction_field();
        if (e == 255 && f != 0) || self.sign_bit() {
            return 0;
        }
        if e == 255 {
            return usize::MAX;
        }
        if e < 127 {
            proof {
                lemma_rounds_below_one(e as nat, f as nat);
            }
            return if e == 126 {
                1
            } else {
                0
            };
        }
        let m: u32 = 0x80_0000 + f;
        if e < 150 {
            let s: u32 = 150 - e;
            let half: u32 = 1u32 << (s - 1);
            proof {
                lemma2_to64();
                lemma_pow2_upto((s - 1) as nat, 22);
                lemma_u32_shl_is_mul(1u32, (s - 1) as u32);
                assert(half == pow2((s - 1) as nat));
                lemma_u32_shr_is_div((m + half) as u32, s);
                lemma_rounds_fraction(e as nat, f as nat);
            }
            let nearest: u32 = (m + half) >> s;
            nearest as usize
        } else {
            let t: u32 = e - 150;
            proof {
                lemma_rounds_whole(e as nat, f as nat);
                lemma2_to64();
                lemma2_to64_rest();
            }
            if t > 40 {
                proof {
                    lemma_pow2_upto(41, t as nat);
                    lemma_pow2_pos(t as nat);
                    assert(m * pow2(t as nat) >= 0x80_0000 * pow2(41)) by (nonlinear_arith)
                        requires
                            m >= 0x80_0000,
                            pow2(t as nat) >= pow2(41),
                    ;
                }
                usize::MAX
            } else {
                proof {
                    lemma_pow2_upto(t as nat, 40);
                    lemma_pow2_pos(t as nat);
                    assert(m * pow2(t as nat) <= 0xff_ffff * pow2(40)) by (nonlinear_arith)
                        requires
                            m <= 0xff_ffff,
                            pow2(t as nat) <= pow2(40),
                    ;
                    lemma_u64_shl_is_mul(m as u64, t as u64);
                }
                let whole: u64 = (m as u64) << (t as u64);
                if whole > usize::MAX as u64 {
                    usize::MAX
                } else {
                    whole as usize
                }
            }
        }
    }
}

/// `s` with each of its items written `times` times in a row.
pub open spec fn repeat_each<T>(s: Seq<T>, times: nat) -> Seq<T> {
    Seq::new(s.len() * times, |i: int| s[i / (times as int)])
}

/// Each line of a block stretched: every character `times` times.
pub open spec fn stretch_lines(lines: Seq<Seq<char>>, times: nat) -> Seq<Seq<char>> {
    Seq::new(lines.len(), |i: int| repeat_each(lines[i], times))
}

/// A block scaled by `factor`. A factor of at most 1 leaves it as it is.
/// A greater one repeats each line as often as the factor, rounded, says;
/// from 2 on each character within a line is repeated as often too.
pub open spec fn scaled_block(lines: Seq<Seq<char>>, factor: ScaleFactor) -> Seq<Seq<char>> {
    if factor.at_most_one() {
        lines
    } else if factor.at_least_two() {
        repeat_each(stretch_lines(lines, factor.rounded()), factor.rounded())
    } else {
        repeat_each(lines, factor.rounded())
    }
}

/// A text scaled by `factor`: unchanged for a factor of at most 1, else
/// its lines scaled and joined by line feeds.
pub open spec fn scaled_text(text: Seq<char>, factor: ScaleFactor) -> Seq<char> {
    if factor.at_most_one() {
        text
    } else {
        join_lines(scaled_block(lines_of(text), factor))
    }
}

/// Repeating the items of a sequence with one more item at its end adds
/// that item `times` times.
pub proof fn lemma_repeat_each_push<T>(s: Seq<T>, last: T, times: nat)
    ensures
        repeat_each(s.push(last), times) == repeat_each(s, times) + Seq::new(
            times,
            |i: int| last,
        ),
{
    let k = times as int;
    let n = s.len() as int;
    let left = repeat_each(s.push(last), times);
    let right = repeat_each(s, times) + Seq::new(times, |i: int| last);
    assert((n + 1) * k == n * k + k) by (nonlinear_arith);
    assert(left.len() == right.len());
    assert forall|i: int| 0 <= i < left.len() implies left[i] == right[i] by {
        if i < n * k {
            assert(i / k < n) by (nonlinear_arith)
                requires
                    0 <= i < n * k,
                    k > 0,
            ;
            assert(0 <= i / k) by (nonlinear_arith)
                requires
                    0 <= i,
                    k > 0,
            ;
        } else {
            assert(i / k == n) by (nonlinear_arith)
                requires
                    n * k <= i < n * k + k,
                    k > 0,
            ;
        }
    }
    assert(left =~= right);
}

/// The item at `index` of a repeated sequence is the item at `index / times`
/// of the sequence.
pub proof fn lemma_repeat_each_index<T>(s: Seq<T>, times: nat, index: int)
    requires
        0 <= index < s.len() * times,
    ensures
        times > 0,
        0 <= index / (times as int) < s.len(),
        repeat_each(s, times)[index] == s[index / (times as int)],
{
    let k = times as int;
    let n = s.len() as int;
    assert(k > 0) by (nonlinear_arith)
        requires
            0 <= index < n * k,
            k >= 0,
            n >= 0,
    ;
    assert(0 <= index / k < n) by (nonlinear_arith)
        requires
            0 <= index < n * k,
            k > 0,
    ;
}

/// The characters of `line`, each `times` times in a row.
fn repeat_chars(line: &Vec<char>, times: usize) -> (out: Vec<char>)
    ensures
        out@ == repeat_each(line@, times as nat),
{
    let mut out: Vec<char> = Vec::new();
    let mut i: usize = 0;
    assert(line@.take(0) =~= Seq::<char>::empty());
    assert(repeat_each(Seq::<char>::empty(), times as nat) =~= Seq::<char>::empty());
    while i < line.len()
        invariant
            i <= line.len(),
            out@ == repeat_each(line@.take(i as int), times as nat),
        decreases line.len() - i,
    {
        let c = line[i];
        let ghost before = out@;
        let mut j: usize = 0;
        while j < times
            invariant
                j <= times,
                out@ == before + Seq::new(j as nat, |k: int| c),
            decreases times - j,
        {
            out.push(c);
            j += 1;
            assert(before + Seq::new(j as nat, |k: int| c) =~= (before + Seq::new(
                (j - 1) as nat,
                |k: int| c,
            )).push(c));
        }
        proof {
            lemma_repeat_each_push(line@.take(i as int), c, times as nat);
            assert(line@.take(i + 1) =~= line@.take(i as int).push(c));
        }
        i += 1;
    }
    assert(line@.take(line.len() as int) =~= line@);
    out
}

/// A copy of `line`.
fn copy_line(line: &Vec<char>) -> (out: Vec<char>)
    ensures
        out@ == line@,
{
    let mut out: Vec<char> = Vec::new();
    let mut i: usize = 0;
    while i < line.len()
        invariant
            i <= line.len(),
            out@ == line@.take(i as int),
        decreases line.len() - i,
    {
        out.push(line[i]);
        i += 1;
        assert(line@.take(i as int) =~= line@.take(i - 1).push(line@[i - 1]));
    }
    assert(line@.take(line.len() as int) =~= line@);
    out
}

/// Scales a block by `factor`.
pub fn scale_block(block: &RenderedBlock, factor: ScaleFactor) -> (out: RenderedBlock)
    ensures
        out@ == scaled_block(block@, factor),
{
    let unit = factor.is_at_most_one();
    let times = if unit {
        1
    } else {
        factor.round()
    };
    let wide = !unit && factor.is_at_least_two();
    let ghost source: Seq<Seq<char>> = if wide {
        stretch_lines(block@, times as nat)
    } else {
        block@
    };
    let mut out = RenderedBlock { lines: Vec::new() };
    let mut i: usize = 0;
    assert(out@ =~= Seq::<Seq<char>>::empty());
    assert(source.take(0) =~= Seq::<Seq<char>>::empty());
    assert(repeat_each(Seq::<Seq<char>>::empty(), times as nat) =~= Seq::<Seq<char>>::empty());
    while i < block.lines.len()
        invariant
            i <= block.lines.len(),
            source.len() == block@.len(),
            block@.len() == block.lines.len(),
            source == if wide {
                stretch_lines(block@, times as nat)
            } else {
                block@
            },
            out@ == repeat_each(source.take(i as int), times as nat),
        decreases block.lines.len() - i,
    {
        let line = if wide {
            repeat_chars(&block.lines[i], times)
        } else {
            copy_line(&block.lines[i])
        };
        assert(line@ == source[i as int]);
        let ghost before = out@;
        let mut j: usize = 0;
        while j < times
            invariant
                j <= times,
                out@ == before + Seq::new(j as nat, |k: int| line@),
            decreases times - j,
        {
            let again = copy_line(&line);
            let ghost held = out@;
            out.lines.push(again);
            j += 1;
            assert(out@ =~= held.push(line@));
            assert(before + Seq::new(j as nat, |k: int| line@) =~= (before + Seq::new(
                (j - 1) as nat,
                |k: int| line@,
            )).push(line@));
        }
        proof {
            lemma_repeat_each_push(source.take(i as int), line@, times as nat);
            assert(source.take(i + 1) =~= source.take(i as int).push(line@));
        }
        i += 1;
    }
    proof {
        assert(source.take(block.lines.len() as int) =~= source);
        if unit {
            assert(repeat_each(block@, 1) =~= block@);
        }
    }
    out
}

/// Scales a text by `factor`.
pub fn scale_text(text: &str, factor: ScaleFactor) -> (out: String)
    ensures
        out@ == scaled_text(text@, factor),
{
    if factor.is_at_most_one() {
        return text.to_owned();
    }
    let block = RenderedBlock::from_text(text);
    let scaled = scale_block(&block, factor);
    scaled.to_text()
}

/// A factor of at most 1 changes neither a block nor a text.
pub proof fn law_small_factor_is_identity(lines: Seq<Seq<char>>, text: Seq<char>, factor: ScaleFactor)
    requires
        factor.at_most_one(),
    ensures
        scaled_block(lines, factor) == lines,
        scaled_text(text, factor) == text,
{
}

/// A factor above 1 and below 2 rounds to 1 or to 2. The scaled block has
/// that many lines for each line of the block, in the block's order, and
/// each is the line it came from, unchanged.
pub proof fn law_factor_below_two_repeats_lines(lines: Seq<Seq<char>>, factor: ScaleFactor)
    requires
        !factor.is_nan(),
        !factor.at_most_one(),
        !factor.at_least_two(),
    ensures
        factor.rounded() == 1 || factor.rounded() == 2,
        scaled_block(lines, factor).len() == lines.len() * factor.rounded(),
        forall|j: int|
            0 <= j < lines.len() * factor.rounded() ==> #[trigger] scaled_block(lines, factor)[j]
                == lines[j / (factor.rounded() as int)],
{
    let k = factor.rounded();
    let d = pow2(149) as int;
    let x = (factor.units() + pow2(148)) as int;
    lemma_pow2_pos(148);
    lemma_pow2_adds(1, 148);
    lemma2_to64();
    assert(d == 2 * pow2(148));
    assert(d <= x < 3 * d);
    assert(1 <= x / d <= 2) by (nonlinear_arith)
        requires
            d <= x < 3 * d,
            d > 0,
    ;
    assert forall|j: int| 0 <= j < lines.len() * k implies #[trigger] scaled_block(
        lines,
        factor,
    )[j] == lines[j / (k as int)] by {
        lemma_repeat_each_index(lines, k, j);
    }
}

/// A factor of at least 2 rounds to at least 2. The scaled block has that
/// many lines for each line of the block, in the block's order, and each
/// holds every character of the line it came from that many times in a row.
pub proof fn law_factor_from_two_repeats_characters(lines: Seq<Seq<char>>, factor: ScaleFactor)
    requires
        factor.at_least_two(),
    ensures
        factor.rounded() >= 2,
        scaled_block(lines, factor).len() == lines.len() * factor.rounded(),
        forall|j: int|
            0 <= j < lines.len() * factor.rounded() ==> {
                let from = lines[j / (factor.rounded() as int)];
                &&& (#[trigger] scaled_block(lines, factor)[j]) == repeat_each(
                    from,
                    factor.rounded(),
                )
                &&& scaled_block(lines, factor)[j].len() == from.len() * factor.rounded()
            },
{
    let k = factor.rounded();
    let d = pow2(149) as int;
    let x = (factor.units() + pow2(148)) as int;
    lemma_pow2_pos(148);
    lemma_pow2_pos(149);
    lemma_pow2_strictly_increases(149, 150);
    lemma_pow2_adds(1, 149);
    lemma2_to64();
    if !factor.is_infinite() {
        assert(x / d >= 2) by (nonlinear_arith)
            requires
                x >= 2 * d,
                d > 0,
        ;
    }
    assert(!factor.at_most_one());
    let wide = stretch_lines(lines, k);
    assert forall|j: int| 0 <= j < lines.len() * k implies {
        let from = lines[j / (k as int)];
        &&& (#[trigger] scaled_block(lines, factor)[j]) == repeat_each(from, k)
        &&& scaled_block(lines, factor)[j].len() == from.len() * k
    } by {
        lemma_repeat_each_index(wide, k, j);
    }
}

/// The factor 1 is at most 1.
pub proof fn lemma_one_is_at_most_one(factor: ScaleFactor)
    requires
        factor.is_one(),
    ensures
        factor.at_most_one(),
{
}

/// A number above 1 rounds to at least 1.
pub proof fn lemma_above_one_rounds_up(factor: ScaleFactor)
    requires
        !factor.is_nan(),
        !factor.at_most_one(),
    ensures
        factor.rounded() >= 1,
{
    let d = pow2(149) as int;
    let x = (factor.units() + pow2(148)) as int;
    lemma_pow2_pos(148);
    lemma_pow2_pos(149);
    if !factor.is_infinite() {
        assert(x / d >= 1) by (nonlinear_arith)
            requires
                x >= d,
                d > 0,
        ;
    }
}

/// Scaling keeps a tidy block tidy, for a factor that is a number.
pub proof fn lemma_scaled_block_is_tidy(lines: Seq<Seq<char>>, factor: ScaleFactor)
    requires
        is_tidy(lines),
        !factor.is_nan(),
    ensures
        is_tidy(scaled_block(lines, factor)),
{
    if !factor.at_most_one() {
        lemma_above_one_rounds_up(factor);
        let k = factor.rounded();
        let out = scaled_block(lines, factor);
        let wide = stretch_lines(lines, k);
        assert(out.len() == lines.len() * k);
        assert forall|i: int, c: int| 0 <= i < out.len() && 0 <= c < out[i].len() implies (
        #[trigger] out[i][c]) != '\n' by {
            if factor.at_least_two() {
                lemma_repeat_each_index(wide, k, i);
                let from = lines[i / (k as int)];
                lemma_repeat_each_index(from, k, c);
                assert(from[c / (k as int)] != '\n');
            } else {
                lemma_repeat_each_index(lines, k, i);
                assert(lines[i / (k as int)][c] != '\n');
            }
        }
        assert forall|i: int| 0 <= i < out.len() implies !ends_in_cr(#[trigger] out[i]) by {
            let from = lines[i / (k as int)];
            if factor.at_least_two() {
                lemma_repeat_each_index(wide, k, i);
                if out[i].len() > 0 {
                    let end = out[i].len() - 1;
                    let n = from.len() as int;
                    lemma_repeat_each_index(from, k, end);
                    assert(end / (k as int) == n - 1) by (nonlinear_arith)
                        requires
                            end == n * k - 1,
                            k >= 1,
                            n >= 1,
                    ;
                    assert(!ends_in_cr(from));
                }
            } else {
                lemma_repeat_each_index(lines, k, i);
                assert(!ends_in_cr(from));
            }
        }
        if out.len() > 0 {
            let n = lines.len() as int;
            let last = out.len() - 1;
            assert(n > 0) by (nonlinear_arith)
                requires
                    n * k > 0,
                    n >= 0,
                    k >= 0,
            ;
            assert(last / (k as int) == n - 1) by (nonlinear_arith)
                requires
                    last == n * k - 1,
                    k >= 1,
                    n >= 1,
            ;
            if factor.at_least_two() {
                lemma_repeat_each_index(wide, k, last);
                assert(out[last] == repeat_each(lines[n - 1], k));
                assert(lines[n - 1].len() * k > 0) by (nonlinear_arith)
                    requires
                        lines[n - 1].len() > 0,
                        k >= 1,
                ;
            } else {
                lemma_repeat_each_index(lines, k, last);
            }
        }
    }
}

/// The lines of a scaled text are the scaled lines of the text, where the
/// lines of the text are tidy and the factor is a number above 1. So the
/// scaled text has as many lines as the text times the rounded factor.
pub proof fn law_scaled_text_keeps_its_lines(text: Seq<char>, factor: ScaleFactor)
    requires
        is_tidy(lines_of(text)),
        !factor.is_nan(),
        !factor.at_most_one(),
    ensures
        lines_of(scaled_text(text, factor)) == scaled_block(lines_of(text), factor),
        lines_of(scaled_text(text, factor)).len() == lines_of(text).len() * factor.rounded(),
{
    lemma_scaled_block_is_tidy(lines_of(text), factor);
    law_lines_of_joined(scaled_block(lines_of(text), factor));
}

/// Powers of two grow with the exponent.
proof fn lemma_pow2_upto(a: nat, b: nat)
    requires
        a <= b,
    ensures
        pow2(a) <= pow2(b),
{
    if a < b {
        lemma_pow2_strictly_increases(a, b);
    }
}

/// A number with a nonzero exponent field `e` lies between 2^(e+22) and
/// 2^(e+23) units.
proof fn lemma_units_range(e: nat, f: nat)
    requires
        1 <= e,
        f < 0x80_0000,
    ensures
        pow2(e + 22) <= units_of(e, f) < pow2(e + 23),
        units_of(e, f) == (0x80_0000 + f) * pow2((e - 1) as nat),
        pow2(e + 22) == 0x80_0000 * pow2((e - 1) as nat),
{
    let p = pow2((e - 1) as nat);
    lemma2_to64();
    lemma_pow2_pos((e - 1) as nat);
    lemma_pow2_adds(23, (e - 1) as nat);
    lemma_pow2_adds(24, (e - 1) as nat);
    assert(pow2(e + 22) == 0x80_0000 * p);
    assert(pow2(e + 23) == 0x100_0000 * p);
    assert((0x80_0000 + f) * p >= 0x80_0000 * p && (0x80_0000 + f) * p < 0x100_0000 * p)
        by (nonlinear_arith)
        requires
            p > 0,
            f < 0x80_0000,
    ;
}

/// How a finite number stands to 1 and to 2, read from its fields.
proof fn lemma_against_one(e: nat, f: nat)
    requires
        e <= 254,
        f < 0x80_0000,
    ensures
        units_of(e, f) <= pow2(149) <==> (e < 127 || (e == 127 && f == 0)),
        units_of(e, f) == pow2(149) <==> (e == 127 && f == 0),
        units_of(e, f) >= 2 * pow2(149) <==> e >= 128,
{
    lemma2_to64();
    lemma_pow2_adds(1, 149);
    assert(pow2(150) == 2 * pow2(149));
    lemma_pow2_strictly_increases(149, 150);
    if e == 0 {
        lemma_pow2_upto(23, 149);
    } else {
        lemma_units_range(e, f);
        if e < 127 {
            lemma_pow2_upto(e + 23, 149);
        } else if e == 127 {
            let p = pow2(126);
            lemma_pow2_pos(126);
            assert(pow2(149) == 0x80_0000 * p);
            assert(((0x80_0000 + f) * p <= 0x80_0000 * p) <==> f == 0) by (nonlinear_arith)
                requires
                    p > 0,
                    f >= 0,
            ;
            lemma_pow2_upto(150, 150);
        } else {
            lemma_pow2_upto(150, e + 22);
        }
    }
}

/// How a finite number stands to 10, read from its fields.
proof fn lemma_against_ten(e: nat, f: nat)
    requires
        e <= 254,
        f < 0x80_0000,
    ensures
        units_of(e, f) > 10 * pow2(149) <==> (e > 130 || (e == 130 && f > 0x20_0000)),
{
    lemma2_to64();
    lemma_pow2_pos(149);
    lemma_pow2_adds(20, 129);
    lemma_pow2_adds(3, 149);
    lemma_pow2_adds(4, 149);
    assert(pow2(149) == 0x10_0000 * pow2(129));
    assert(pow2(152) == 8 * pow2(149));
    assert(pow2(153) == 16 * pow2(149));
    if e == 0 {
        lemma_pow2_upto(23, 149);
    } else {
        lemma_units_range(e, f);
        if e < 130 {
            lemma_pow2_upto(e + 23, 152);
        } else if e == 130 {
            let p = pow2(129);
            lemma_pow2_pos(129);
            assert(10 * (0x10_0000 * p) == 0xa0_0000 * p) by (nonlinear_arith);
            assert(((0x80_0000 + f) * p > 0xa0_0000 * p) <==> f > 0x20_0000) by (nonlinear_arith)
                requires
                    p > 0,
                    f >= 0,
            ;
        } else {
            lemma_pow2_upto(153, e + 22);
        }
    }
}

/// A number below 1 rounds to 1 from one half on, and to 0 below that.
proof fn lemma_rounds_below_one(e: nat, f: nat)
    requires
        e < 127,
        f < 0x80_0000,
    ensures
        (units_of(e, f) + pow2(148)) / pow2(149) == if e == 126 {
            1int
        } else {
            0int
        },
{
    lemma2_to64();
    lemma_pow2_adds(1, 148);
    assert(pow2(149) == 2 * pow2(148));
    lemma_pow2_pos(148);
    let x = (units_of(e, f) + pow2(148)) as int;
    if e == 0 {
        lemma_pow2_upto(23, 148);
        lemma_basic_div(x, pow2(149) as int);
    } else {
        lemma_units_range(e, f);
        if e == 126 {
            lemma_fundamental_div_mod_converse(x, pow2(149) as int, 1, x - pow2(149));
        } else {
            lemma_pow2_upto(e + 23, 148);
            lemma_basic_div(x, pow2(149) as int);
        }
    }
}

/// A number from 1 up to 2^23 rounds as its significand does when the
/// binary point is put in its place.
proof fn lemma_rounds_fraction(e: nat, f: nat)
    requires
        127 <= e < 150,
        f < 0x80_0000,
    ensures
        (units_of(e, f) + pow2(148)) / pow2(149) == (0x80_0000 + f + pow2((149 - e) as nat))
            / pow2((150 - e) as nat),
{
    let p = pow2((e - 1) as nat);
    let m = 0x80_0000 + f;
    let half = pow2((149 - e) as nat);
    let full = pow2((150 - e) as nat);
    lemma_units_range(e, f);
    lemma_pow2_pos((e - 1) as nat);
    lemma_pow2_pos((150 - e) as nat);
    lemma_pow2_adds((149 - e) as nat, (e - 1) as nat);
    lemma_pow2_adds((150 - e) as nat, (e - 1) as nat);
    assert(pow2(148) == half * p);
    assert(pow2(149) == full * p);
    assert(m * p + half * p == p * (m + half)) by (nonlinear_arith);
    assert(full * p == p * full) by (nonlinear_arith);
    lemma_div_multiples_vanish_quotient(p as int, (m + half) as int, full as int);
}

/// A number from 2^23 on is whole already.
proof fn lemma_rounds_whole(e: nat, f: nat)
    requires
        150 <= e <= 254,
        f < 0x80_0000,
    ensures
        (units_of(e, f) + pow2(148)) / pow2(149) == (0x80_0000 + f) * pow2((e - 150) as nat),
{
    let m = 0x80_0000 + f;
    let t = pow2((e - 150) as nat);
    lemma_units_range(e, f);
    lemma_pow2_adds((e - 150) as nat, 149);
    lemma_pow2_strictly_increases(148, 149);
    assert(pow2((e - 1) as nat) == t * pow2(149));
    assert(m * (t * pow2(149)) == (m * t) * pow2(149)) by (nonlinear_arith);
    lemma_fundamental_div_mod_converse(
        (units_of(e, f) + pow2(148)) as int,
        pow2(149) as int,
        (m * t) as int,
        pow2(148) as int,
    );
}

} // verus!
