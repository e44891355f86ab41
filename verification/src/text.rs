//! Small text routines: decimal numerals and the first lines of a byte
//! stream.

use crate::boundary::push_char;
use vstd::prelude::*;

verus! {

/// The numeral of one decimal digit.
pub open spec fn digit(d: int) -> char
    recommends
        0 <= d < 10,
{
    if d == 0 {
        '0'
    } else if d == 1 {
        '1'
    } else if d == 2 {
        '2'
    } else if d == 3 {
        '3'
    } else if d == 4 {
        '4'
    } else if d == 5 {
        '5'
    } else if d == 6 {
        '6'
    } else if d == 7 {
        '7'
    } else if d == 8 {
        '8'
    } else {
        '9'
    }
}

/// The decimal numeral of `n`, without sign or leading zeros.
pub open spec fn decimal_text(n: nat) -> Seq<char>
    decreases n,
{
    if n < 10 {
        seq![digit(n as int)]
    } else {
        decimal_text(n / 10).push(digit((n % 10) as int))
    }
}

fn digit_char(d: usize) -> (c: char)
    requires
        d < 10,
    ensures
        c == digit(d as int),
{
    if d == 0 {
        '0'
    } else if d == 1 {
        '1'
    } else if d == 2 {
        '2'
    } else if d == 3 {
        '3'
    } else if d == 4 {
        '4'
    } else if d == 5 {
        '5'
    } else if d == 6 {
        '6'
    } else if d == 7 {
        '7'
    } else if d == 8 {
        '8'
    } else {
        '9'
    }
}

/// Writes `n` in decimal.
pub fn decimal(n: usize) -> (text: String)
    ensures
        text@ == decimal_text(n as nat),
    decreases n,
{
    if n < 10 {
        let mut text = String::new();
        push_char(&mut text, digit_char(n));
        text
    } else {
        let mut text = decimal(n / 10);
        push_char(&mut text, digit_char(n % 10));
        text
    }
}

/// The byte that ends a line.
pub const NEWLINE: u8 = 10;

/// Length of the shortest prefix of `raw`, not shorter than `from`, in which
/// `n` more lines end; the whole length where fewer lines end after `from`.
pub open spec fn head_end(raw: Seq<u8>, n: nat, from: int) -> int
    decreases raw.len() - from,
{
    if n == 0 || from >= raw.len() || from < 0 {
        from
    } else if raw[from] == NEWLINE {
        head_end(raw, (n - 1) as nat, from + 1)
    } else {
        head_end(raw, n, from + 1)
    }
}

/// The first `n` lines of `raw`, each with the newline that ends it. Where
/// `raw` holds fewer lines this is all of `raw`, an unfinished last line
/// included.
pub open spec fn head_lines(raw: Seq<u8>, n: nat) -> Seq<u8> {
    raw.take(head_end(raw, n, 0))
}

/// Copies the first `n` lines of `raw`.
pub fn first_lines(raw: &Vec<u8>, n: usize) -> (head: Vec<u8>)
    ensures
        head@ == head_lines(raw@, n as nat),
{
    let len = raw.len();
    let mut end: usize = 0;
    let mut left: usize = n;
    while left > 0 && end < len
        invariant
            end <= len,
            len == raw@.len(),
            head_end(raw@, n as nat, 0) == head_end(raw@, left as nat, end as int),
        decreases len - end,
    {
        if raw[end] == NEWLINE {
            left -= 1;
        }
        end += 1;
    }
    let mut head: Vec<u8> = Vec::new();
    let mut i: usize = 0;
    while i < end
        invariant
            i <= end <= len,
            len == raw@.len(),
            head@.len() == i,
            forall|j: int| 0 <= j < i ==> head@[j] == raw@[j],
        decreases end - i,
    {
        head.push(raw[i]);
        i += 1;
    }
    assert(head@ =~= raw@.take(end as int));
    head
}

} // verus!
