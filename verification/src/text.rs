//! Building strings: runs of spaces, padding, and numbers in decimal.

use vstd::prelude::*;
use vstd::string::StringExecFns;

verus! {

/// `String::push` of std puts one character behind the others.
pub assume_specification[ String::push ](s: &mut String, c: char)
    ensures
        final(s)@ == old(s)@.push(c),
;

/// The character `c`, `count` times; nothing where `count` is not positive.
pub open spec fn repeated(c: char, count: int) -> Seq<char> {
    if count <= 0 {
        Seq::empty()
    } else {
        Seq::new(count as nat, |i: int| c)
    }
}

/// A run of `count` spaces.
pub open spec fn spaces(count: int) -> Seq<char> {
    repeated(' ', count)
}

/// Puts `count` spaces behind `out`.
pub fn push_spaces(out: &mut String, count: usize)
    ensures
        final(out)@ == old(out)@ + spaces(count as int),
{
    let mut written: usize = 0;
    while written < count
        invariant
            written <= count,
            out@ == old(out)@ + spaces(written as int),
        decreases count - written,
    {
        out.push(' ');
        written += 1;
        assert(out@ == old(out)@ + spaces(written as int));
    }
}

/// The text made of the characters `chars`.
pub fn text_of_chars(chars: &Vec<char>) -> (text: String)
    ensures
        text@ == chars@,
{
    let mut text = String::new();
    let mut i: usize = 0;
    while i < chars.len()
        invariant
            i <= chars.len(),
            text@ == chars@.take(i as int),
        decreases chars.len() - i,
    {
        text.push(chars[i]);
        i += 1;
        assert(chars@.take(i as int) =~= chars@.take(i - 1).push(chars@[i - 1]));
    }
    assert(chars@.take(chars.len() as int) == chars@);
    text
}

/// The characters of `text`.
pub fn chars_of(text: &str) -> (chars: Vec<char>)
    ensures
        chars@ == text@,
{
    let mut chars: Vec<char> = Vec::new();
    for chr in it: text.chars()
        invariant
            it.seq() == text@,
            chars@ == text@.take(it.index() as int),
    {
        chars.push(chr);
        assert(text@.take(it.index() + 1) =~= text@.take(it.index() as int).push(chr));
    }
    assert(text@.take(text@.len() as int) == text@);
    chars
}

/// Number of characters of `text`.
pub fn char_count(text: &str) -> (count: usize)
    ensures
        count == text@.len(),
{
    text.unicode_len()
}

/// `text` with spaces behind it up to `width` characters; `text` itself
/// where it is that long already.
pub open spec fn padded_right(text: Seq<char>, width: int) -> Seq<char> {
    text + spaces(width - text.len())
}

/// `text` followed by spaces, so that the whole is at least `width`
/// characters long.
pub fn pad_right(text: &str, width: usize) -> (out: String)
    ensures
        out@ == padded_right(text@, width as int),
{
    let mut out = String::from_str(text);
    let len = char_count(text);
    if len < width {
        push_spaces(&mut out, width - len);
    } else {
        assert(spaces(width - len) == Seq::<char>::empty());
        assert(out@ == text@ + Seq::<char>::empty());
    }
    out
}

/// `text` between spaces, so that the whole is at least `width` characters
/// long; where the spaces cannot be shared evenly, the right side gets one
/// more.
pub open spec fn centered(text: Seq<char>, width: int) -> Seq<char> {
    if text.len() >= width {
        text
    } else {
        let total = width - text.len();
        spaces(total / 2) + text + spaces(total - total / 2)
    }
}

/// `text` centered in `width` columns.
pub fn center(text: &str, width: usize) -> (out: String)
    ensures
        out@ == centered(text@, width as int),
{
    let len = char_count(text);
    if len >= width {
        String::from_str(text)
    } else {
        let total = width - len;
        let left = total / 2;
        let mut out = String::new();
        push_spaces(&mut out, left);
        out.append(text);
        push_spaces(&mut out, total - left);
        assert(out@ == spaces(left as int) + text@ + spaces(total - left));
        out
    }
}

/// The character of a decimal digit.
pub open spec fn digit_char(digit: int) -> char {
    ((48 + digit) as u8) as char
}

/// The digits of `n` in decimal, without leading zeros; "0" for zero.
pub open spec fn decimal(n: nat) -> Seq<char>
    decreases n,
{
    if n < 10 {
        seq![digit_char(n as int)]
    } else {
        decimal(n / 10).push(digit_char((n % 10) as int))
    }
}

/// The digits of `n` in decimal, with zeros in front up to `width` digits.
pub open spec fn decimal_padded(n: nat, width: int) -> Seq<char> {
    repeated('0', width - decimal(n).len()) + decimal(n)
}

/// An integer in decimal, with a minus sign in front where it is negative.
pub open spec fn decimal_signed(n: int) -> Seq<char> {
    if n < 0 {
        seq!['-'] + decimal((-n) as nat)
    } else {
        decimal(n as nat)
    }
}

/// The digits of `n`, last digit first.
spec fn digits_reversed(n: nat) -> Seq<char>
    decreases n,
{
    if n < 10 {
        seq![digit_char(n as int)]
    } else {
        seq![digit_char((n % 10) as int)] + digits_reversed(n / 10)
    }
}

proof fn lemma_digits_reversed(n: nat)
    ensures
        digits_reversed(n).reverse() == decimal(n),
        digits_reversed(n).len() == decimal(n).len(),
        decimal(n).len() >= 1,
    decreases n,
{
    if n < 10 {
        assert(digits_reversed(n).reverse() =~= decimal(n));
    } else {
        lemma_digits_reversed(n / 10);
        let head = seq![digit_char((n % 10) as int)];
        let rest = digits_reversed(n / 10);
        assert((head + rest).reverse() =~= rest.reverse().push(digit_char((n % 10) as int)));
    }
}

/// Puts the decimal digits of `n` behind `out`, with zeros in front up to
/// `width` digits.
pub fn push_decimal(out: &mut String, n: u64, width: usize)
    ensures
        final(out)@ == old(out)@ + decimal_padded(n as nat, width as int),
{
    let mut digits: Vec<char> = Vec::new();
    let mut rest: u64 = n;
    while rest >= 10
        invariant
            digits@ + digits_reversed(rest as nat) == digits_reversed(n as nat),
        decreases rest,
    {
        let digit: u8 = (rest % 10) as u8;
        let ghost before = digits@;
        digits.push((48u8 + digit) as char);
        assert(digits@ + digits_reversed((rest / 10) as nat) =~= before + digits_reversed(
            rest as nat,
        ));
        rest = rest / 10;
    }
    digits.push((48u8 + (rest as u8)) as char);
    assert(digits@ =~= digits_reversed(n as nat)) by {
        assert(digits_reversed(rest as nat) =~= seq![digit_char(rest as int)]);
    }
    proof {
        lemma_digits_reversed(n as nat);
    }
    let ghost zeros: int = width - digits.len();
    let mut written: usize = digits.len();
    while written < width
        invariant
            digits.len() <= written,
            written <= width || written == digits.len(),
            out@ == old(out)@ + repeated('0', written - digits.len()),
        decreases width - written,
    {
        out.push('0');
        written += 1;
        assert(out@ == old(out)@ + repeated('0', written - digits.len()));
    }
    assert(out@ == old(out)@ + repeated('0', zeros));
    let ghost prefix = out@;
    let mut left: usize = digits.len();
    while left > 0
        invariant
            left <= digits.len(),
            digits@ == digits_reversed(n as nat),
            out@ == prefix + digits@.reverse().take(digits.len() - left),
        decreases left,
    {
        left -= 1;
        out.push(digits[left]);
        assert(out@ == prefix + digits@.reverse().take(digits.len() - left)) by {
            let rev = digits@.reverse();
            let k = digits.len() - left;
            assert(rev.take(k) =~= rev.take(k - 1).push(rev[k - 1]));
            assert(rev[k - 1] == digits@[left as int]);
        }
    }
    assert(digits@.reverse().take(digits.len() as int) == digits@.reverse());
    assert(out@ == old(out)@ + decimal_padded(n as nat, width as int)) by {
        assert(out@ =~= old(out)@ + (repeated('0', zeros) + decimal(n as nat)));
    }
}

/// Puts `n` in decimal behind `out`, with a minus sign where it is negative.
pub fn push_decimal_signed(out: &mut String, n: i64)
    ensures
        final(out)@ == old(out)@ + decimal_signed(n as int),
{
    if n < 0 {
        out.push('-');
        let magnitude: u64 = if n == i64::MIN {
            9223372036854775808u64
        } else {
            (-n) as u64
        };
        let ghost before = out@;
        push_decimal(out, magnitude, 0);
        proof {
            lemma_decimal_unpadded(magnitude as nat);
            assert(out@ =~= old(out)@ + (seq!['-'] + decimal((-n) as nat)));
        }
    } else {
        push_decimal(out, n as u64, 0);
        proof {
            lemma_decimal_unpadded(n as nat);
        }
    }
}

/// Padding to a width of zero digits adds nothing.
pub proof fn lemma_decimal_unpadded(n: nat)
    ensures
        decimal_padded(n, 0) == decimal(n),
{
    assert(decimal_padded(n, 0) =~= decimal(n));
}

} // verus!
