//! The distribution of register values, drawn as a text histogram.
//!
//! The histogram has one line for each value from zero to the highest value
//! that a register holds.  A line starts with the value, right-aligned in
//! three columns, a colon and a space.  For a value that some register holds
//! there follow a bar of stars, a space and the number of registers that hold
//! it; the bar of the most frequent value is 40 stars long and the others are
//! in proportion, rounded up.  For a value that no register holds there
//! follows a single `0`.

use vstd::prelude::*;
use vstd::string::StringExecFns;
use crate::model::{lemma_register_count_range, occurrences};
use crate::registers::{lemma_occurrences_bound, lemma_occurrences_push};
use crate::sketch::HyperLogLog;

verus! {

/// The length of the longest bar.
pub const BAR_WIDTH: usize = 40;

/// The character of a decimal digit.
pub open spec fn digit(d: nat) -> char {
    if d == 0 {
        '0'
    } else if d == 1 {
        '1'
    } else if d == 2 {
        '2'
    } else if d == 3 {
        '3'
    } else if d == 4 {
        '4'
    } else if d == 5 {
        '5'
    } else if d == 6 {
        '6'
    } else if d == 7 {
        '7'
    } else if d == 8 {
        '8'
    } else {
        '9'
    }
}

/// A number in decimal digits.
pub open spec fn decimal(n: nat) -> Seq<char>
    decreases n,
{
    if n < 10 {
        seq![digit(n)]
    } else {
        decimal(n / 10).push(digit(n % 10))
    }
}

/// One character, `n` times.
pub open spec fn repeated(c: char, n: nat) -> Seq<char> {
    Seq::new(n, |i: int| c)
}

/// A register value in decimal digits, right-aligned in three columns.
pub open spec fn label(value: nat) -> Seq<char> {
    let digits = decimal(value);
    if digits.len() < 3 {
        repeated(' ', (3 - digits.len()) as nat) + digits
    } else {
        digits
    }
}

/// The length of the bar of a value that `count` registers hold, where the
/// most frequent value is held by `largest`: 40 for `largest` itself, and in
/// proportion for the others, rounded up.
pub open spec fn bar_length(count: nat, largest: nat) -> nat {
    ((count * BAR_WIDTH + largest - 1) / (largest as int)) as nat
}

/// The highest value that a register holds; zero where there is no register.
pub open spec fn highest_value(registers: Seq<u8>) -> u8
    decreases registers.len(),
{
    if registers.len() == 0 {
        0
    } else {
        let rest = highest_value(registers.drop_last());
        if rest < registers.last() {
            registers.last()
        } else {
            rest
        }
    }
}

/// The largest number of registers that hold one value, among the values
/// below `values`.
pub open spec fn largest_count(registers: Seq<u8>, values: nat) -> nat
    decreases values,
{
    if values == 0 {
        0
    } else {
        let rest = largest_count(registers, (values - 1) as nat);
        let count = occurrences(registers, (values - 1) as u8);
        if rest < count {
            count
        } else {
            rest
        }
    }
}

/// The line of the histogram for one register value.
pub open spec fn histogram_line(value: nat, count: nat, largest: nat) -> Seq<char> {
    label(value) + seq![':', ' '] + if count == 0 {
        seq!['0']
    } else {
        repeated('*', bar_length(count, largest)) + seq![' '] + decimal(count)
    }
}

/// The lines of the histogram for the values below `values`.
pub open spec fn histogram_lines(registers: Seq<u8>, values: nat) -> Seq<Seq<char>> {
    Seq::new(
        values,
        |value: int|
            histogram_line(
                value as nat,
                occurrences(registers, value as u8),
                largest_count(registers, 256),
            ),
    )
}

/// Lines joined into one text, with a line feed between every two.
pub open spec fn joined(lines: Seq<Seq<char>>) -> Seq<char>
    decreases lines.len(),
{
    if lines.len() == 0 {
        Seq::empty()
    } else if lines.len() == 1 {
        lines[0]
    } else {
        joined(lines.drop_last()) + seq!['\n'] + lines.last()
    }
}

/// The histogram of a register array: a line for each value from zero to the
/// highest value held, and nothing for an array without registers.
pub open spec fn histogram_text(registers: Seq<u8>) -> Seq<char> {
    if registers.len() == 0 {
        Seq::empty()
    } else {
        joined(histogram_lines(registers, (highest_value(registers) + 1) as nat))
    }
}

/// A number below one hundred has at most two digits, one below ten a
/// single digit, and one below a thousand at most three.
proof fn lemma_decimal_len(n: nat)
    ensures
        n < 10 ==> decimal(n).len() == 1,
        10 <= n < 100 ==> decimal(n).len() == 2,
        100 <= n < 1000 ==> decimal(n).len() == 3,
{
    reveal_with_fuel(decimal, 4);
}

/// The most frequent value is held by at least one register and by no more
/// registers than there are.
proof fn lemma_largest_count_bounds(registers: Seq<u8>, values: nat)
    ensures
        largest_count(registers, values) <= registers.len(),
        forall|v: int|
            0 <= v < values ==> occurrences(registers, #[trigger] (v as u8)) <= largest_count(
                registers,
                values,
            ),
    decreases values,
{
    if values > 0 {
        lemma_largest_count_bounds(registers, (values - 1) as nat);
        lemma_occurrences_bound(registers, (values - 1) as u8);
    }
}

/// Some register holds the highest value, where there is any register.
proof fn lemma_highest_value_occurs(registers: Seq<u8>)
    requires
        registers.len() > 0,
    ensures
        occurrences(registers, highest_value(registers)) > 0,
    decreases registers.len(),
{
    let rest = registers.drop_last();
    if rest.len() > 0 {
        lemma_highest_value_occurs(rest);
    } else {
        assert(highest_value(rest) == 0);
    }
}

/// The text of one decimal digit.
fn digit_text(d: usize) -> (text: &'static str)
    requires
        d < 10,
    ensures
        text@ == seq![digit(d as nat)],
{
    proof {
        reveal_strlit("0");
        reveal_strlit("1");
        reveal_strlit("2");
        reveal_strlit("3");
        reveal_strlit("4");
        reveal_strlit("5");
        reveal_strlit("6");
        reveal_strlit("7");
        reveal_strlit("8");
        reveal_strlit("9");
    }
    match d {
        0 => "0",
        1 => "1",
        2 => "2",
        3 => "3",
        4 => "4",
        5 => "5",
        6 => "6",
        7 => "7",
        8 => "8",
        _ => "9",
    }
}

/// Appends a number in decimal digits.
fn push_decimal(out: &mut String, n: usize)
    ensures
        final(out)@ == old(out)@ + decimal(n as nat),
    decreases n,
{
    if n >= 10 {
        push_decimal(out, n / 10);
    }
    out.append(digit_text(n % 10));
}

/// Appends one character, given as a text, `n` times.
fn push_repeated(out: &mut String, c: char, text: &str, n: usize)
    requires
        text@ == seq![c],
    ensures
        final(out)@ == old(out)@ + repeated(c, n as nat),
{
    let mut i: usize = 0;
    while i < n
        invariant
            i <= n,
            text@ == seq![c],
            out@ == old(out)@ + repeated(c, i as nat),
        decreases n - i,
    {
        out.append(text);
        i += 1;
    }
}

/// Appends the histogram line of one register value.
fn push_line(out: &mut String, value: usize, count: usize, largest: usize)
    requires
        value < 256,
        0 < largest <= 65536,
        count <= largest,
    ensures
        final(out)@ == old(out)@ + histogram_line(value as nat, count as nat, largest as nat),
{
    proof {
        reveal_strlit(" ");
        reveal_strlit("*");
        reveal_strlit(": ");
        reveal_strlit("0");
        lemma_decimal_len(value as nat);
    }
    let pad: usize = if value < 10 {
        2
    } else if value < 100 {
        1
    } else {
        0
    };
    assert(" "@ =~= seq![' ']);
    assert("*"@ =~= seq!['*']);
    push_repeated(out, ' ', " ", pad);
    push_decimal(out, value);
    out.append(": ");
    if count == 0 {
        out.append("0");
    } else {
        let bar: usize = (count * BAR_WIDTH + largest - 1) / largest;
        push_repeated(out, '*', "*", bar);
        out.append(" ");
        push_decimal(out, count);
    }
}

/// Counts, for every value, the registers that hold it, and finds the
/// highest value held.
fn count_values(registers: &[u8]) -> (r: (Vec<usize>, u8))
    ensures
        r.0@.len() == 256,
        forall|v: int| 0 <= v < 256 ==> r.0@[v] == occurrences(registers@, #[trigger] (v as u8)),
        r.1 == highest_value(registers@),
{
    let mut counts: Vec<usize> = vec![0usize; 256];
    let mut top: u8 = 0;
    let mut i: usize = 0;
    while i < registers.len()
        invariant
            i <= registers.len(),
            counts@.len() == 256,
            forall|v: int|
                0 <= v < 256 ==> counts@[v] == occurrences(
                    registers@.take(i as int),
                    #[trigger] (v as u8),
                ),
            top == highest_value(registers@.take(i as int)),
        decreases registers.len() - i,
    {
        let value: u8 = registers[i];
        proof {
            let seen = registers@.take(i as int);
            assert(registers@.take(i + 1).drop_last() =~= seen);
            assert forall|v: int| 0 <= v < 256 implies occurrences(
                registers@.take(i + 1),
                #[trigger] (v as u8),
            ) == occurrences(seen, v as u8) + if value == v as u8 {
                1nat
            } else {
                0nat
            } by {
                lemma_occurrences_push(seen, value, v as u8);
            }
            lemma_occurrences_bound(seen, value);
            assert(value as int as u8 == value);
        }
        let slot: usize = value as usize;
        let count: usize = counts[slot];
        counts.set(slot, count + 1);
        if top < value {
            top = value;
        }
        i += 1;
    }
    assert(registers@.take(i as int) =~= registers@);
    (counts, top)
}

impl HyperLogLog {
    /// Draws the distribution of the register values as a text histogram.
    pub fn histgram_of_register_value_distribution(&self) -> (text: String)
        ensures
            text@ == histogram_text(self@.registers),
    {
        let registers = self.registers();
        proof {
            lemma_register_count_range(self@.precision);
        }
        let (counts, top) = count_values(registers.as_slice());
        let mut largest: usize = 0;
        let mut v: usize = 0;
        while v < 256
            invariant
                v <= 256,
                counts@.len() == 256,
                largest == largest_count(registers@, v as nat),
                forall|w: int|
                    0 <= w < 256 ==> counts@[w] == occurrences(registers@, #[trigger] (w as u8)),
            decreases 256 - v,
        {
            if largest < counts[v] {
                largest = counts[v];
            }
            v += 1;
        }
        proof {
            lemma_largest_count_bounds(registers@, 256);
            lemma_highest_value_occurs(registers@);
            assert(occurrences(registers@, top as int as u8) <= largest);
        }
        let mut text = String::new();
        let ghost lines = histogram_lines(registers@, (top + 1) as nat);
        let mut value: usize = 0;
        while value <= top as usize
            invariant
                value <= top + 1,
                top < 256,
                0 < largest <= 65536,
                largest == largest_count(registers@, 256),
                counts@.len() == 256,
                lines == histogram_lines(registers@, (top + 1) as nat),
                forall|w: int|
                    0 <= w < 256 ==> counts@[w] == occurrences(registers@, #[trigger] (w as u8))
                        && counts@[w] <= largest,
                text@ == joined(lines.take(value as int)),
            decreases top + 1 - value,
        {
            if value > 0 {
                proof {
                    reveal_strlit("\n");
                }
                text.append("\n");
            }
            assert(counts@[value as int] == occurrences(registers@, value as int as u8));
            push_line(&mut text, value, counts[value], largest);
            proof {
                let shown = lines.take(value + 1);
                assert(shown.drop_last() =~= lines.take(value as int));
            }
            value += 1;
        }
        assert(lines.take(value as int) =~= lines);
        text
    }
}

} // verus!
