//! On-screen text built from the game's numbers: the objective counter that
//! tracks shrine progress, with numbers written in decimal.

use crate::beacons::Progress;
use vstd::prelude::*;
use vstd::string::*;

verus! {

/// The character of decimal digit `d` (`0..=9`).
pub open spec fn digit_char(d: int) -> char {
    if d == 0 {
        '0'
    } else if d == 1 {
        '1'
    } else if d == 2 {
        '2'
    } else if d == 3 {
        '3'
    } else if d == 4 {
        '4'
    } else if d == 5 {
        '5'
    } else if d == 6 {
        '6'
    } else if d == 7 {
        '7'
    } else if d == 8 {
        '8'
    } else {
        '9'
    }
}

/// The value of a decimal digit character (`'0'..='9'`).
pub open spec fn digit_value(c: char) -> int {
    if c == '0' {
        0
    } else if c == '1' {
        1
    } else if c == '2' {
        2
    } else if c == '3' {
        3
    } else if c == '4' {
        4
    } else if c == '5' {
        5
    } else if c == '6' {
        6
    } else if c == '7' {
        7
    } else if c == '8' {
        8
    } else {
        9
    }
}

/// `n` written in decimal, most significant digit first, without leading
/// zeros.
pub open spec fn decimal(n: nat) -> Seq<char>
    decreases n,
{
    if n < 10 {
        seq![digit_char(n as int)]
    } else {
        decimal(n / 10).push(digit_char((n % 10) as int))
    }
}

/// The number a string of decimal digits denotes.
pub open spec fn digits_value(s: Seq<char>) -> int
    decreases s.len(),
{
    if s.len() == 0 {
        0
    } else {
        digits_value(s.drop_last()) * 10 + digit_value(s.last())
    }
}

/// The objective counter's text for `p`: a completion message once every
/// shrine is lit, otherwise the count of lit shrines out of the total.
pub open spec fn objective_message(p: Progress) -> Seq<char> {
    if p.lit >= p.total && p.total > 0 {
        "All "@ + decimal(p.total as nat) + " shrines rekindled!"@
    } else {
        "Shrines "@ + decimal(p.lit as nat) + " / "@ + decimal(p.total as nat)
    }
}

fn digit_str(d: u32) -> (s: &'static str)
    requires
        d < 10,
    ensures
        s@ == seq![digit_char(d as int)],
{
    proof {
        reveal_strlit("0");
        reveal_strlit("1");
        reveal_strlit("2");
        reveal_strlit("3");
        reveal_strlit("4");
        reveal_strlit("5");
        reveal_strlit("6");
        reveal_strlit("7");
        reveal_strlit("8");
        reveal_strlit("9");
    }
    match d {
        0 => "0",
        1 => "1",
        2 => "2",
        3 => "3",
        4 => "4",
        5 => "5",
        6 => "6",
        7 => "7",
        8 => "8",
        _ => "9",
    }
}

/// `n` written in decimal.
pub fn decimal_string(n: u32) -> (s: String)
    ensures
        s@ == decimal(n as nat),
    decreases n,
{
    if n < 10 {
        String::from_str(digit_str(n))
    } else {
        let mut s = decimal_string(n / 10);
        s.append(digit_str(n % 10));
        s
    }
}

/// The objective counter's text: `"All N shrines rekindled!"` once every
/// shrine is lit, otherwise `"Shrines L / N"`.
pub fn objective_text(progress: &Progress) -> (text: String)
    ensures
        text@ == objective_message(*progress),
        progress.lit < progress.total ==> text@ == "Shrines "@ + decimal(progress.lit as nat)
            + " / "@ + decimal(progress.total as nat),
        progress.total == 0 ==> text@ == "Shrines "@ + decimal(progress.lit as nat) + " / "@
            + decimal(progress.total as nat),
        0 < progress.total <= progress.lit ==> text@ == "All "@ + decimal(progress.total as nat)
            + " shrines rekindled!"@,
{
    if progress.lit >= progress.total && progress.total > 0 {
        let mut text = String::from_str("All ");
        let total = decimal_string(progress.total);
        text.append(total.as_str());
        text.append(" shrines rekindled!");
        text
    } else {
        let mut text = String::from_str("Shrines ");
        let lit = decimal_string(progress.lit);
        text.append(lit.as_str());
        text.append(" / ");
        let total = decimal_string(progress.total);
        text.append(total.as_str());
        text
    }
}

/// The completion message is shown exactly when every shrine is lit: while
/// any shrine is dormant (or there are none yet) the counter reads
/// `"Shrines L / N"`, and once all `N > 0` are lit it reads
/// `"All N shrines rekindled!"`.
pub proof fn lemma_objective_announces_only_completion(p: Progress)
    ensures
        p.lit < p.total ==> objective_message(p) == "Shrines "@ + decimal(p.lit as nat) + " / "@
            + decimal(p.total as nat),
        p.total == 0 ==> objective_message(p) == "Shrines "@ + decimal(p.lit as nat) + " / "@
            + decimal(p.total as nat),
        0 < p.total <= p.lit ==> objective_message(p) == "All "@ + decimal(p.total as nat)
            + " shrines rekindled!"@,
        objective_message(p) != objective_message(Progress { lit: p.total, total: p.total })
            <== p.lit < p.total,
{
    reveal_strlit("Shrines ");
    reveal_strlit("All ");
    if p.lit < p.total {
        let a = objective_message(p);
        let b = objective_message(Progress { lit: p.total, total: p.total });
        assert(a[0] == 'S');
        assert(b[0] == 'A');
    }
}

/// Decimal digits are the ASCII digits: the digit `d` is the character with
/// code `48 + d`, and a number is its leading digits followed by the digit of
/// its remainder modulo ten (a single digit below ten).
pub proof fn lemma_decimal_digits(n: nat)
    ensures
        n < 10 ==> decimal(n) == seq![(48 + n) as char],
        n >= 10 ==> decimal(n) == decimal(n / 10).push((48 + n % 10) as char),
        forall|d: int| 0 <= d < 10 ==> #[trigger] digit_char(d) as int == 48 + d,
{
    assert forall|d: int| 0 <= d < 10 implies #[trigger] digit_char(d) as int == 48 + d by {
        assert('0' as int == 48);
        assert('9' as int == 57);
    }
    if n < 10 {
        assert(digit_char(n as int) == (48 + n) as char);
    } else {
        assert(digit_char((n % 10) as int) == (48 + n % 10) as char);
    }
}

/// Writing a number in decimal loses nothing: the digits read back as the
/// number, and only zero starts with the digit `0`.
pub proof fn lemma_decimal_round_trip(n: nat)
    ensures
        digits_value(decimal(n)) == n,
        decimal(n).len() >= 1,
        decimal(n)[0] == '0' ==> n == 0,
    decreases n,
{
    if n >= 10 {
        lemma_decimal_round_trip(n / 10);
        assert(decimal(n).drop_last() =~= decimal(n / 10));
        assert(decimal(n)[0] == decimal(n / 10)[0]);
        assert(digit_value(digit_char((n % 10) as int)) == n % 10);
        assert((n / 10) * 10 + n % 10 == n);
        assert(decimal(n).last() == digit_char((n % 10) as int));
        assert(digits_value(decimal(n)) == digits_value(decimal(n / 10)) * 10 + digit_value(
            digit_char((n % 10) as int),
        ));
    } else {
        assert(decimal(n).drop_last() =~= Seq::<char>::empty());
        assert(digits_value(Seq::<char>::empty()) == 0);
        assert(digit_value(digit_char(n as int)) == n);
    }
}

} // verus!
