//! Building strings: appending text, and writing integers in decimal.

use vstd::prelude::*;

verus! {

/// Calls `String::push_str`, which appends `t` to `s`.
#[verifier::external_body]
pub(crate) fn push_str(s: &mut String, t: &str)
    ensures
        final(s)@ == old(s)@ + t@,
{
    s.push_str(t);
}

/// Calls `String::push`, which appends the character `c` to `s`.
#[verifier::external_body]
pub(crate) fn push_char(s: &mut String, c: char)
    ensures
        final(s)@ == old(s)@.push(c),
{
    s.push(c);
}

/// The character of the decimal digit `d`.
pub open spec fn digit_char(d: int) -> char {
    (48 + d) as char
}

/// The decimal digits of `n`, most significant first, without leading
/// zeros (`"0"` for zero).
pub open spec fn decimal_digits(n: nat) -> Seq<char>
    decreases n,
{
    if n < 10 {
        seq![digit_char(n as int)]
    } else {
        decimal_digits(n / 10).push(digit_char((n % 10) as int))
    }
}

/// `i` written in decimal, with a leading `-` when negative.
pub open spec fn decimal_string(i: int) -> Seq<char> {
    if i < 0 {
        seq!['-'] + decimal_digits((-i) as nat)
    } else {
        decimal_digits(i as nat)
    }
}

/// `i` written in decimal (as `to_string` writes it).
pub fn int_to_string(i: i32) -> (s: String)
    ensures
        s@ == decimal_string(i as int),
{
    let negative = i < 0;
    let wide: i64 = i as i64;
    let magnitude: u64 = if negative { (-wide) as u64 } else { wide as u64 };
    let ghost orig: nat = magnitude as nat;
    let mut n: u64 = magnitude;
    let mut reversed: Vec<char> = Vec::new();
    loop
        invariant_except_break
            n <= orig,
            reversed.len() == 0 ==> n == orig,
            reversed.len() > 0 ==> n > 0 && decimal_digits(orig) == decimal_digits(n as nat) + reversed@.reverse(),
        ensures
            decimal_digits(orig) == reversed@.reverse(),
        decreases n,
    {
        let d: u64 = n % 10;
        let c: char = (48u8 + d as u8) as char;
        proof {
            assert(c == digit_char(d as int));
            if n >= 10 {
                assert(decimal_digits(n as nat) == decimal_digits((n / 10) as nat).push(digit_char((n % 10) as int)));
                assert(reversed@.push(c).reverse() =~= seq![c] + reversed@.reverse());
            } else {
                assert(decimal_digits(n as nat) == seq![digit_char(n as int)]);
                assert(reversed@.push(c).reverse() =~= seq![c] + reversed@.reverse());
            }
        }
        reversed.push(c);
        n = n / 10;
        if n == 0 {
            break;
        }
    }
    let mut s = String::new();
    if negative {
        push_char(&mut s, '-');
    }
    let ghost prefix = s@;
    let mut k: usize = reversed.len();
    while k > 0
        invariant
            k <= reversed.len(),
            s@ == prefix + reversed@.subrange(k as int, reversed.len() as int).reverse(),
        decreases k,
    {
        k = k - 1;
        proof {
            assert(reversed@.subrange(k as int, reversed.len() as int).reverse() =~= reversed@.subrange(
                k + 1,
                reversed.len() as int,
            ).reverse().push(reversed@[k as int]));
        }
        push_char(&mut s, reversed[k]);
    }
    proof {
        assert(reversed@.subrange(0, reversed.len() as int) =~= reversed@);
    }
    s
}


/// `c` is white space: a character with the Unicode property White_Space.
pub open spec fn is_white_space(c: char) -> bool {
    ||| '\u{9}' <= c <= '\u{d}'
    ||| c == ' '
    ||| c == '\u{85}'
    ||| c == '\u{a0}'
    ||| c == '\u{1680}'
    ||| '\u{2000}' <= c <= '\u{200a}'
    ||| c == '\u{2028}'
    ||| c == '\u{2029}'
    ||| c == '\u{202f}'
    ||| c == '\u{205f}'
    ||| c == '\u{3000}'
}

/// Whether `c` is white space.
pub fn white_space(c: char) -> (b: bool)
    ensures
        b == is_white_space(c),
{
    ('\u{9}' <= c && c <= '\u{d}') || c == ' ' || c == '\u{85}' || c == '\u{a0}' || c == '\u{1680}' || ('\u{2000}' <= c
        && c <= '\u{200a}') || c == '\u{2028}' || c == '\u{2029}' || c == '\u{202f}' || c == '\u{205f}' || c == '\u{3000}'
}

/// `s` without its leading white space.
pub open spec fn trim_start(s: Seq<char>) -> Seq<char>
    decreases s.len(),
{
    if s.len() > 0 && is_white_space(s[0]) {
        trim_start(s.drop_first())
    } else {
        s
    }
}

/// `s` without its trailing white space.
pub open spec fn trim_end(s: Seq<char>) -> Seq<char>
    decreases s.len(),
{
    if s.len() > 0 && is_white_space(s.last()) {
        trim_end(s.drop_last())
    } else {
        s
    }
}

/// `s` without its leading and trailing white space.
pub open spec fn trimmed(s: Seq<char>) -> Seq<char> {
    trim_end(trim_start(s))
}

/// `s` without its leading and trailing white space (what `str::trim`
/// gives).
pub fn trim(s: &str) -> (r: String)
    ensures
        r@ == trimmed(s@),
{
    let n: usize = s.unicode_len();
    let mut i: usize = 0;
    proof {
        assert(s@.subrange(0, n as int) =~= s@);
    }
    while i < n && white_space(s.get_char(i))
        invariant
            n == s@.len(),
            i <= n,
            trim_start(s@) == trim_start(s@.subrange(i as int, n as int)),
        decreases n - i,
    {
        proof {
            assert(s@.subrange(i as int, n as int).drop_first() =~= s@.subrange(i + 1, n as int));
        }
        i = i + 1;
    }
    let mut j: usize = n;
    while j > i && white_space(s.get_char(j - 1))
        invariant
            n == s@.len(),
            i <= j <= n,
            trim_end(s@.subrange(i as int, n as int)) == trim_end(s@.subrange(i as int, j as int)),
            trim_start(s@) == s@.subrange(i as int, n as int),
        decreases j - i,
    {
        proof {
            assert(s@.subrange(i as int, j as int).drop_last() =~= s@.subrange(i as int, j - 1));
        }
        j = j - 1;
    }
    s.substring_char(i, j).to_owned()
}

} // verus!
