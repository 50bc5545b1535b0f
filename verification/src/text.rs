//! How numbers and quoted text are written out.

use vstd::prelude::*;
use vstd::string::StringExecFns;

verus! {

/// The character of the decimal digit `d`.
pub open spec fn digit(d: nat) -> char
    recommends
        d < 10,
{
    if d == 0 {
        '0'
    } else if d == 1 {
        '1'
    } else if d == 2 {
        '2'
    } else if d == 3 {
        '3'
    } else if d == 4 {
        '4'
    } else if d == 5 {
        '5'
    } else if d == 6 {
        '6'
    } else if d == 7 {
        '7'
    } else if d == 8 {
        '8'
    } else {
        '9'
    }
}

/// The decimal digits of `n`, the most significant first, without leading
/// zeros.
pub open spec fn decimal(n: nat) -> Seq<char>
    decreases n,
{
    if n < 10 {
        seq![digit(n)]
    } else {
        decimal(n / 10).push(digit(n % 10))
    }
}

/// The characters of the digits in `low`, the last of them first.
spec fn digits_reversed(low: Seq<u8>) -> Seq<char>
    decreases low.len(),
{
    if low.len() == 0 {
        Seq::empty()
    } else {
        seq![digit(low.last() as nat)] + digits_reversed(low.drop_last())
    }
}

fn digit_text(d: u8) -> (text: &'static str)
    requires
        d < 10,
    ensures
        text@ == seq![digit(d as nat)],
{
    proof {
        reveal_strlit("0");
        reveal_strlit("1");
        reveal_strlit("2");
        reveal_strlit("3");
        reveal_strlit("4");
        reveal_strlit("5");
        reveal_strlit("6");
        reveal_strlit("7");
        reveal_strlit("8");
        reveal_strlit("9");
    }
    let text = match d {
        0 => "0",
        1 => "1",
        2 => "2",
        3 => "3",
        4 => "4",
        5 => "5",
        6 => "6",
        7 => "7",
        8 => "8",
        _ => "9",
    };
    assert(text@ =~= seq![digit(d as nat)]);
    text
}

/// `n` in decimal.
pub fn decimal_string(n: u128) -> (text: String)
    ensures
        text@ == decimal(n as nat),
{
    let mut rest = n;
    let mut low: Vec<u8> = Vec::new();
    while rest >= 10
        invariant
            decimal(n as nat) == decimal(rest as nat) + digits_reversed(low@),
            forall|i: int| 0 <= i < low@.len() ==> low@[i] < 10,
        decreases rest,
    {
        let ghost before = low@;
        low.push((rest % 10) as u8);
        proof {
            assert(low@.drop_last() =~= before);
            assert(decimal(rest as nat) == decimal((rest / 10) as nat).push(digit((rest % 10) as nat)));
            assert(decimal((rest / 10) as nat).push(digit((rest % 10) as nat)) + digits_reversed(
                before,
            ) =~= decimal((rest / 10) as nat) + digits_reversed(low@));
        }
        rest = rest / 10;
    }
    let mut text = String::new();
    text.append(digit_text(rest as u8));
    let mut i = low.len();
    assert(low@.subrange(0, i as int) =~= low@);
    while i > 0
        invariant
            i <= low@.len(),
            decimal(n as nat) == text@ + digits_reversed(low@.subrange(0, i as int)),
            forall|j: int| 0 <= j < low@.len() ==> low@[j] < 10,
        decreases i,
    {
        let ghost before = text@;
        i -= 1;
        text.append(digit_text(low[i]));
        proof {
            assert(low@.subrange(0, i + 1).drop_last() =~= low@.subrange(0, i as int));
            assert(before + digits_reversed(low@.subrange(0, i + 1)) =~= text@ + digits_reversed(
                low@.subrange(0, i as int),
            ));
        }
    }
    assert(text@ + digits_reversed(low@.subrange(0, 0)) =~= text@);
    text
}

/// The text that the standard debug format gives for the string `text`:
/// between double quotes, with escapes where the format uses them.
pub uninterp spec fn quoted_str(text: Seq<char>) -> Seq<char>;

/// The text that the standard debug format gives for the character `ch`:
/// between single quotes, with an escape where the format uses one.
pub uninterp spec fn quoted_char(ch: char) -> Seq<char>;

/// Formats `text` with `{:?}`. The result is named, not described: the
/// escapes of the format follow the Unicode tables of the standard library.
#[verifier::external_body]
pub(crate) fn quote_str(text: &str) -> (quoted: String)
    ensures
        quoted@ == quoted_str(text@),
{
    format!("{:?}", text)
}

/// Formats `ch` with `{:?}`. The result is named, not described: the
/// escapes of the format follow the Unicode tables of the standard library.
#[verifier::external_body]
pub(crate) fn quote_char(ch: char) -> (quoted: String)
    ensures
        quoted@ == quoted_char(ch),
{
    format!("{:?}", ch)
}

} // verus!
