//! Small pieces of text that the renderer composes its output from.
use vstd::prelude::*;

verus! {

/// `text` written `count` times in a row.
pub open spec fn repeated(text: Seq<char>, count: nat) -> Seq<char>
    decreases count,
{
    if count == 0 {
        Seq::empty()
    } else {
        repeated(text, (count - 1) as nat) + text
    }
}

/// The character of a decimal digit.
pub open spec fn digit_char(digit: nat) -> char {
    if digit == 0 {
        '0'
    } else if digit == 1 {
        '1'
    } else if digit == 2 {
        '2'
    } else if digit == 3 {
        '3'
    } else if digit == 4 {
        '4'
    } else if digit == 5 {
        '5'
    } else if digit == 6 {
        '6'
    } else if digit == 7 {
        '7'
    } else if digit == 8 {
        '8'
    } else {
        '9'
    }
}

/// A number in decimal notation, without leading zeros.
pub open spec fn decimal(number: nat) -> Seq<char>
    decreases number,
{
    if number < 10 {
        seq![digit_char(number)]
    } else {
        decimal(number / 10).push(digit_char(number % 10))
    }
}

/// `text` with spaces put before it until it is `width` characters long.
pub open spec fn right_aligned(text: Seq<char>, width: nat) -> Seq<char> {
    if text.len() < width {
        repeated(seq![' '], (width - text.len()) as nat) + text
    } else {
        text
    }
}

/// A line break.
pub open spec fn newline() -> Seq<char> {
    seq!['\n']
}

/// Appends `text` to `out` `count` times.
pub fn write_repeated(out: &mut String, text: &str, count: usize)
    ensures
        final(out)@ == old(out)@ + repeated(text@, count as nat),
{
    let mut written: usize = 0;
    while written < count
        invariant
            written <= count,
            out@ == old(out)@ + repeated(text@, written as nat),
        decreases count - written,
    {
        out.append(text);
        written = written + 1;
    }
}

/// Appends a line break to `out`.
pub fn write_newline(out: &mut String)
    ensures
        final(out)@ == old(out)@ + newline(),
{
    proof {
        reveal_strlit("\n");
    }
    out.append("\n");
    assert(out@ =~= old(out)@ + newline());
}

fn digit_text(digit: u64) -> (text: &'static str)
    requires
        digit < 10,
    ensures
        text@ == seq![digit_char(digit as nat)],
{
    proof {
        reveal_strlit("0");
        reveal_strlit("1");
        reveal_strlit("2");
        reveal_strlit("3");
        reveal_strlit("4");
        reveal_strlit("5");
        reveal_strlit("6");
        reveal_strlit("7");
        reveal_strlit("8");
        reveal_strlit("9");
    }
    let text = if digit == 0 {
        "0"
    } else if digit == 1 {
        "1"
    } else if digit == 2 {
        "2"
    } else if digit == 3 {
        "3"
    } else if digit == 4 {
        "4"
    } else if digit == 5 {
        "5"
    } else if digit == 6 {
        "6"
    } else if digit == 7 {
        "7"
    } else if digit == 8 {
        "8"
    } else {
        "9"
    };
    assert(text@ =~= seq![digit_char(digit as nat)]);
    text
}

/// Appends `number` in decimal notation to `out`.
pub fn write_decimal(out: &mut String, number: u64)
    ensures
        final(out)@ == old(out)@ + decimal(number as nat),
    decreases number,
{
    if number < 10 {
        out.append(digit_text(number));
    } else {
        write_decimal(out, number / 10);
        out.append(digit_text(number % 10));
        assert(out@ =~= old(out)@ + decimal(number as nat));
    }
}

/// A number has at least one digit, and at least two from ten on.
pub proof fn lemma_decimal_len(number: nat)
    ensures
        decimal(number).len() >= 1,
        number >= 10 ==> decimal(number).len() >= 2,
    decreases number,
{
    if number >= 10 {
        lemma_decimal_len(number / 10);
    }
}

/// Appends `number` in decimal notation to `out`, right-aligned in two
/// columns.
pub fn write_ordinal(out: &mut String, number: u64)
    ensures
        final(out)@ == old(out)@ + right_aligned(decimal(number as nat), 2),
{
    if number < 10 {
        proof {
            reveal_strlit(" ");
            assert(repeated(seq![' '], 1) =~= seq![' ']) by {
                reveal_with_fuel(repeated, 2);
            }
        }
        out.append(" ");
    } else {
        proof {
            lemma_decimal_len(number as nat);
        }
    }
    write_decimal(out, number);
    assert(out@ =~= old(out)@ + right_aligned(decimal(number as nat), 2));
}

} // verus!
