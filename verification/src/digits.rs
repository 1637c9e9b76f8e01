//! Decimal digit strings: what they denote and how they are read.
//!
//! The feed delivers prices, volumes and timestamps as decimal text;
//! everything here gives that text an exact numeric meaning and reads it
//! without overflow.

use vstd::arithmetic::div_mod::{
    lemma_div_is_strictly_smaller, lemma_mod_division_less_than_divisor,
};
use vstd::prelude::*;
use vstd::string::{StrSliceExecFns, StringExecFns};

verus! {

/// An ASCII decimal digit.
pub open spec fn spec_is_digit(c: char) -> bool {
    48 <= (c as u32) && (c as u32) <= 57
}

/// The value of one digit.
pub open spec fn digit_val(c: char) -> int {
    (c as u32) - 48
}

pub open spec fn all_digits(s: Seq<char>) -> bool {
    forall|i: int| 0 <= i < s.len() ==> spec_is_digit(#[trigger] s[i])
}

/// The number a digit string denotes, most significant digit first.
pub open spec fn digits_val(s: Seq<char>) -> int
    decreases s.len(),
{
    if s.len() == 0 {
        0
    } else {
        digits_val(s.drop_last()) * 10 + digit_val(s.last())
    }
}

pub open spec fn pow10(n: nat) -> int
    decreases n,
{
    if n == 0 {
        1
    } else {
        10 * pow10((n - 1) as nat)
    }
}

pub proof fn lemma_pow10_pos(n: nat)
    ensures
        pow10(n) >= 1,
    decreases n,
{
    if n > 0 {
        lemma_pow10_pos((n - 1) as nat);
    }
}

pub proof fn lemma_pow10_monotonic(a: nat, b: nat)
    requires
        a <= b,
    ensures
        pow10(a) <= pow10(b),
    decreases b,
{
    lemma_pow10_pos(a);
    if a < b {
        lemma_pow10_monotonic(a, (b - 1) as nat);
    }
}

pub proof fn lemma_pow10_adds(a: nat, b: nat)
    ensures
        pow10(a) * pow10(b) == pow10(a + b),
    decreases a,
{
    if a == 0 {
    } else {
        lemma_pow10_adds((a - 1) as nat, b);
        assert(10 * pow10((a - 1) as nat) * pow10(b) == 10 * (pow10((a - 1) as nat) * pow10(b)))
            by (nonlinear_arith);
    }
}

/// The value of nineteen digits still fits a machine word.
pub proof fn lemma_pow10_19()
    ensures
        pow10(19) == 0x8ac7230489e80000,
{
    reveal_with_fuel(pow10, 20);
}

pub proof fn lemma_digits_val_push(p: Seq<char>, c: char)
    ensures
        digits_val(p.push(c)) == digits_val(p) * 10 + digit_val(c),
{
    assert(p.push(c).drop_last() =~= p);
}

pub proof fn lemma_digits_val_bounds(s: Seq<char>)
    requires
        all_digits(s),
    ensures
        0 <= digits_val(s) < pow10(s.len()),
    decreases s.len(),
{
    if s.len() == 0 {
    } else {
        assert(all_digits(s.drop_last())) by {
            assert(forall|i: int|
                0 <= i < s.len() - 1 ==> #[trigger] s.drop_last()[i] == s[i]);
        }
        lemma_digits_val_bounds(s.drop_last());
        assert(spec_is_digit(s.last()));
        assert(digits_val(s.drop_last()) * 10 <= (pow10((s.len() - 1) as nat) - 1) * 10) by (
        nonlinear_arith)
            requires
                digits_val(s.drop_last()) <= pow10((s.len() - 1) as nat) - 1,
        ;
        assert(digits_val(s.drop_last()) * 10 >= 0) by (nonlinear_arith)
            requires
                digits_val(s.drop_last()) >= 0,
        ;
    }
}

pub proof fn lemma_all_digits_push(p: Seq<char>, c: char)
    requires
        all_digits(p),
        spec_is_digit(c),
    ensures
        all_digits(p.push(c)),
{
    assert forall|i: int| 0 <= i < p.push(c).len() implies spec_is_digit(#[trigger] p.push(c)[i]) by {
        if i < p.len() {
            assert(p.push(c)[i] == p[i]);
        }
    }
}

/// A digit string's value only grows as digits are appended on the right.
pub proof fn lemma_digits_val_prefix(s: Seq<char>, i: int, j: int)
    requires
        0 <= i <= j <= s.len(),
        all_digits(s.subrange(0, j)),
    ensures
        digits_val(s.subrange(0, i)) <= digits_val(s.subrange(0, j)),
    decreases j - i,
{
    if i < j {
        let p = s.subrange(0, j - 1);
        assert(all_digits(p)) by {
            assert(forall|k: int|
                0 <= k < j - 1 ==> #[trigger] p[k] == s.subrange(0, j)[k]);
        }
        lemma_digits_val_prefix(s, i, j - 1);
        assert(s.subrange(0, j) =~= p.push(s[j - 1]));
        lemma_digits_val_push(p, s[j - 1]);
        lemma_digits_val_bounds(p);
        assert(spec_is_digit(s.subrange(0, j)[j - 1]));
        assert(digits_val(p) * 10 >= digits_val(p)) by (nonlinear_arith)
            requires
                digits_val(p) >= 0,
        ;
    }
}

/// `10^n` as a machine word.
pub fn pow10_u64(n: usize) -> (r: u64)
    requires
        n <= 19,
    ensures
        r == pow10(n as nat),
{
    proof {
        lemma_pow10_19();
    }
    let mut r: u64 = 1;
    let mut i: usize = 0;
    while i < n
        invariant
            i <= n <= 19,
            r == pow10(i as nat),
        decreases n - i,
    {
        proof {
            lemma_pow10_19();
            lemma_pow10_monotonic((i + 1) as nat, 19);
            lemma_pow10_pos(i as nat);
        }
        r = r * 10;
        i = i + 1;
    }
    r
}

/// Reads the `n` characters of `s` starting at `from` as a decimal
/// number: their value if all of them are digits, nothing otherwise.
pub fn read_digits(s: &str, from: usize, n: usize) -> (r: Option<u64>)
    requires
        from + n <= s@.len(),
        from + n <= usize::MAX,
        n <= 19,
    ensures
        (match r {
            Some(v) => all_digits(s@.subrange(from as int, from + n)) && v == digits_val(
                s@.subrange(from as int, from + n),
            ),
            None => !all_digits(s@.subrange(from as int, from + n)),
        }),
{
    proof {
        lemma_pow10_19();
    }
    let mut acc: u64 = 0;
    let mut i: usize = 0;
    while i < n
        invariant
            from + n <= s@.len(),
            from + n <= usize::MAX,
            n <= 19,
            i <= n,
            all_digits(s@.subrange(from as int, from + i)),
            acc == digits_val(s@.subrange(from as int, from + i)),
            acc < pow10(i as nat),
            pow10(19) == 0x8ac7230489e80000,
        decreases n - i,
    {
        let c = s.get_char(from + i);
        let cu: u32 = c as u32;
        if cu < 48 || cu > 57 {
            proof {
                assert(s@.subrange(from as int, from + n)[i as int] == s@[from + i]);
                assert(!spec_is_digit(s@.subrange(from as int, from + n)[i as int]));
            }
            return None;
        }
        proof {
            lemma_digits_val_push(s@.subrange(from as int, from + i), s@[from + i]);
            assert(s@.subrange(from as int, from + i + 1) =~= s@.subrange(
                from as int,
                from + i,
            ).push(s@[from + i]));
            lemma_pow10_monotonic((i + 1) as nat, 19nat);
            lemma_pow10_pos(i as nat);
        }
        acc = acc * 10 + ((cu - 48) as u64);
        i = i + 1;
    }
    proof {
        lemma_digits_val_bounds(s@.subrange(from as int, from + n));
    }
    Some(acc)
}

/// The glyph of one digit.
pub open spec fn digit_to_char(d: int) -> char {
    if d == 0 {
        '0'
    } else if d == 1 {
        '1'
    } else if d == 2 {
        '2'
    } else if d == 3 {
        '3'
    } else if d == 4 {
        '4'
    } else if d == 5 {
        '5'
    } else if d == 6 {
        '6'
    } else if d == 7 {
        '7'
    } else if d == 8 {
        '8'
    } else {
        '9'
    }
}

/// The decimal writing of `v`, most significant digit first, no leading
/// zeros (a single `0` for zero).
pub open spec fn spec_digits_of(v: nat) -> Seq<char>
    decreases v,
{
    if v < 10 {
        seq![digit_to_char(v as int)]
    } else {
        spec_digits_of(v / 10).push(digit_to_char((v % 10) as int))
    }
}

fn digit_str(d: u64) -> (s: &'static str)
    requires
        d < 10,
    ensures
        s@ =~= seq![digit_to_char(d as int)],
{
    proof {
        reveal_strlit("0");
        reveal_strlit("1");
        reveal_strlit("2");
        reveal_strlit("3");
        reveal_strlit("4");
        reveal_strlit("5");
        reveal_strlit("6");
        reveal_strlit("7");
        reveal_strlit("8");
        reveal_strlit("9");
    }
    match d {
        0 => "0",
        1 => "1",
        2 => "2",
        3 => "3",
        4 => "4",
        5 => "5",
        6 => "6",
        7 => "7",
        8 => "8",
        _ => "9",
    }
}

fn push_digits(v: u64, out: &mut String)
    ensures
        final(out)@ == old(out)@ + spec_digits_of(v as nat),
    decreases v,
{
    if v < 10 {
        out.append(digit_str(v));
        assert(final(out)@ =~= old(out)@ + spec_digits_of(v as nat));
    } else {
        proof {
            lemma_div_is_strictly_smaller(v as int, 10);
            lemma_mod_division_less_than_divisor(v as int, 10);
        }
        push_digits(v / 10, out);
        out.append(digit_str(v % 10));
        assert(final(out)@ =~= old(out)@ + spec_digits_of(v as nat));
    }
}

/// Writes `v` in decimal: exactly `spec_digits_of(v)`.
pub fn u64_to_string(v: u64) -> (s: String)
    ensures
        s@ == spec_digits_of(v as nat),
{
    let mut s = String::new();
    push_digits(v, &mut s);
    assert(s@ =~= spec_digits_of(v as nat));
    s
}

/// The decimal writing of `v` left-padded with zeros to `width` digits
/// (`v` must fit).
pub open spec fn spec_padded_digits(v: nat, width: nat) -> Seq<char>
    decreases width,
{
    if width == 0 {
        Seq::empty()
    } else {
        spec_padded_digits(v / 10, (width - 1) as nat).push(digit_to_char((v % 10) as int))
    }
}

/// Writes `v` as exactly `width` digits, zero-padded on the left.
pub fn u64_to_padded_string(v: u64, width: usize) -> (s: String)
    requires
        v < pow10(width as nat),
    ensures
        s@ == spec_padded_digits(v as nat, width as nat),
{
    let mut s = String::new();
    push_padded_digits(v, width, &mut s);
    assert(s@ =~= spec_padded_digits(v as nat, width as nat));
    s
}

fn push_padded_digits(v: u64, width: usize, out: &mut String)
    ensures
        final(out)@ == old(out)@ + spec_padded_digits(v as nat, width as nat),
    decreases width,
{
    if width == 0 {
        assert(final(out)@ =~= old(out)@ + spec_padded_digits(v as nat, 0));
    } else {
        proof {
            lemma_mod_division_less_than_divisor(v as int, 10);
        }
        push_padded_digits(v / 10, width - 1, out);
        out.append(digit_str(v % 10));
        assert(final(out)@ =~= old(out)@ + spec_padded_digits(v as nat, width as nat));
    }
}

} // verus!
