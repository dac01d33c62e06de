//! Building texts: numbers in decimal, columns of a given width.

use vstd::prelude::*;
use vstd::string::{StrSliceExecFns, StringExecFns};

verus! {

/// The character of the digit `d`.
pub open spec fn digit(d: int) -> char {
    if d == 0 {
        '0'
    } else if d == 1 {
        '1'
    } else if d == 2 {
        '2'
    } else if d == 3 {
        '3'
    } else if d == 4 {
        '4'
    } else if d == 5 {
        '5'
    } else if d == 6 {
        '6'
    } else if d == 7 {
        '7'
    } else if d == 8 {
        '8'
    } else {
        '9'
    }
}

/// The natural number `n` in decimal, without leading zeros.
pub open spec fn decimal(n: nat) -> Seq<char>
    decreases n,
{
    if n < 10 {
        seq![digit(n as int)]
    } else {
        decimal(n / 10).push(digit((n % 10) as int))
    }
}

/// The integer `n` in decimal, with a minus sign if it is negative.
pub open spec fn signed_decimal(n: int) -> Seq<char> {
    if n < 0 {
        seq!['-'] + decimal((-n) as nat)
    } else {
        decimal(n as nat)
    }
}

/// `n` spaces.
pub open spec fn spaces(n: int) -> Seq<char> {
    Seq::new(
        if n > 0 {
            n as nat
        } else {
            0
        },
        |i: int| ' ',
    )
}

/// The text `s` at the right of a column of `width` characters: after as
/// many spaces as it falls short of the width.
pub open spec fn flush_right(s: Seq<char>, width: int) -> Seq<char> {
    spaces(width - s.len()) + s
}

/// The text `s` at the left of a column of `width` characters: before as
/// many spaces as it falls short of the width.
pub open spec fn flush_left(s: Seq<char>, width: int) -> Seq<char> {
    s + spaces(width - s.len())
}

/// `String::push` of std: appends one character.
#[verifier::external_body]
pub(crate) fn push_char(s: &mut String, c: char)
    ensures
        final(s)@ == old(s)@.push(c),
{
    s.push(c)
}

/// The character of a digit.
fn digit_char(d: u64) -> (res: char)
    requires
        d < 10,
    ensures
        res == digit(d as int),
{
    if d == 0 {
        '0'
    } else if d == 1 {
        '1'
    } else if d == 2 {
        '2'
    } else if d == 3 {
        '3'
    } else if d == 4 {
        '4'
    } else if d == 5 {
        '5'
    } else if d == 6 {
        '6'
    } else if d == 7 {
        '7'
    } else if d == 8 {
        '8'
    } else {
        '9'
    }
}

/// Appends `n` in decimal.
pub fn push_decimal(s: &mut String, n: u64)
    ensures
        final(s)@ == old(s)@ + decimal(n as nat),
    decreases n,
{
    if n >= 10 {
        push_decimal(s, n / 10);
    }
    push_char(s, digit_char(n % 10));
    proof {
        if n >= 10 {
            assert(s@ =~= old(s)@ + decimal(n as nat));
        } else {
            assert(s@ =~= old(s)@ + decimal(n as nat));
        }
    }
}

/// Appends `n` in decimal, with its sign if it is negative.
pub fn push_signed_decimal(s: &mut String, n: i64)
    ensures
        final(s)@ == old(s)@ + signed_decimal(n as int),
{
    if n < 0 {
        push_char(s, '-');
        let magnitude: u64 = if n == i64::MIN {
            9_223_372_036_854_775_808u64
        } else {
            (-n) as u64
        };
        push_decimal(s, magnitude);
        assert(s@ =~= old(s)@ + signed_decimal(n as int));
    } else {
        push_decimal(s, n as u64);
    }
}

/// Appends `n` spaces.
pub fn push_spaces(s: &mut String, n: usize)
    ensures
        final(s)@ == old(s)@ + spaces(n as int),
{
    let mut i: usize = 0;
    while i < n
        invariant
            i <= n,
            s@ == old(s)@ + spaces(i as int),
        decreases n - i,
    {
        push_char(s, ' ');
        i = i + 1;
        assert(s@ =~= old(s)@ + spaces(i as int));
    }
    assert(s@ =~= old(s)@ + spaces(n as int));
}

/// The number of decimal digits of `n`.
pub fn decimal_len(n: u64) -> (res: usize)
    ensures
        res == decimal(n as nat).len(),
        1 <= res <= 20,
{
    let mut len: usize = 1;
    let mut rest = n;
    assert(pow10(0) == 1);
    assert(rest as nat * pow10(0) == n) by (nonlinear_arith)
        requires
            pow10(0) == 1,
            rest == n,
    ;
    while rest >= 10
        invariant
            1 <= len,
            len + decimal(rest as nat).len() == decimal(n as nat).len() + 1,
            len <= 20,
            rest as nat * pow10((len - 1) as nat) <= n,
        decreases rest,
    {
        proof {
            lemma_pow10_step(rest as nat, (len - 1) as nat, n as nat);
        }
        rest = rest / 10;
        len = len + 1;
    }
    len
}

/// Ten to the power of `e`.
pub open spec fn pow10(e: nat) -> nat
    decreases e,
{
    if e == 0 {
        1
    } else {
        10 * pow10((e - 1) as nat)
    }
}

/// A number with more than one digit that, shifted by `e` digits, stays
/// within 64 bits, is shifted by fewer than 19.
proof fn lemma_pow10_step(rest: nat, e: nat, n: nat)
    requires
        rest >= 10,
        rest * pow10(e) <= n,
        n <= u64::MAX,
    ensures
        (rest / 10) * pow10(e + 1) <= n,
        e + 2 <= 20,
{
    assert((rest / 10) * pow10(e + 1) == (rest / 10) * 10 * pow10(e)) by (nonlinear_arith)
        requires
            pow10(e + 1) == 10 * pow10(e),
    ;
    assert((rest / 10) * 10 * pow10(e) <= rest * pow10(e)) by (nonlinear_arith)
        requires
            (rest / 10) * 10 <= rest,
    ;
    if e >= 19 {
        lemma_pow10_grows(19, e);
        reveal_with_fuel(pow10, 20);
        assert(pow10(19) == 10_000_000_000_000_000_000);
        assert(rest * pow10(e) >= 10 * pow10(19)) by (nonlinear_arith)
            requires
                rest >= 10,
                pow10(e) >= pow10(19),
        ;
    }
}

/// Powers of ten grow with the exponent.
proof fn lemma_pow10_grows(a: nat, b: nat)
    requires
        a <= b,
    ensures
        pow10(a) <= pow10(b),
        pow10(a) >= 1,
    decreases b,
{
    if a < b {
        lemma_pow10_grows(a, (b - 1) as nat);
    } else if a > 0 {
        lemma_pow10_grows((a - 1) as nat, (a - 1) as nat);
    }
}

/// Appends `n` in decimal at the right of a column of `width` characters.
pub fn push_decimal_right(s: &mut String, n: u64, width: usize)
    ensures
        final(s)@ == old(s)@ + flush_right(decimal(n as nat), width as int),
{
    let len = decimal_len(n);
    if len < width {
        push_spaces(s, width - len);
    }
    push_decimal(s, n);
    assert(s@ =~= old(s)@ + flush_right(decimal(n as nat), width as int));
}

/// Appends `n` in decimal at the left of a column of `width` characters.
pub fn push_decimal_left(s: &mut String, n: u64, width: usize)
    ensures
        final(s)@ == old(s)@ + flush_left(decimal(n as nat), width as int),
{
    let len = decimal_len(n);
    push_decimal(s, n);
    if len < width {
        push_spaces(s, width - len);
    }
    assert(s@ =~= old(s)@ + flush_left(decimal(n as nat), width as int));
}

/// Appends `text` at the left of a column of `width` characters.
pub fn push_left(s: &mut String, text: &str, width: usize)
    ensures
        final(s)@ == old(s)@ + flush_left(text@, width as int),
{
    let len = text.unicode_len();
    s.append(text);
    if len < width {
        push_spaces(s, width - len);
    }
    assert(s@ =~= old(s)@ + flush_left(text@, width as int));
}

/// The texts in `lines` in one text, with a line feed between each two.
pub open spec fn joined(lines: Seq<Seq<char>>) -> Seq<char>
    decreases lines.len(),
{
    if lines.len() == 0 {
        Seq::empty()
    } else if lines.len() == 1 {
        lines[0]
    } else {
        joined(lines.drop_last()) + seq!['\n'] + lines.last()
    }
}

/// Joins the lines to one text, with a line feed between each two.
pub fn join_lines(lines: &Vec<String>) -> (res: String)
    ensures
        res@ == joined(lines@.map_values(|s: String| s@)),
{
    let ghost texts = lines@.map_values(|s: String| s@);
    let mut res = String::new();
    let mut i: usize = 0;
    while i < lines.len()
        invariant
            i <= lines.len(),
            texts == lines@.map_values(|s: String| s@),
            res@ == joined(texts.take(i as int)),
        decreases lines.len() - i,
    {
        proof {
            assert(texts.take(i + 1).drop_last() =~= texts.take(i as int));
            assert(texts.take(i + 1).last() == lines[i as int]@);
            if i == 0 {
                assert(texts.take(1)[0] == lines[0]@);
            }
        }
        if i > 0 {
            push_char(&mut res, '\n');
        }
        res.append(lines[i].as_str());
        assert(res@ =~= joined(texts.take(i + 1)));
        i = i + 1;
    }
    proof {
        assert(texts.take(i as int) =~= texts);
    }
    res
}

} // verus!
