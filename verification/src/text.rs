//! Numbers as texts.

use vstd::prelude::*;
use vstd::string::StringExecFns;

verus! {

/// The text of a digit.
pub open spec fn digit(value: nat) -> char {
    (0x30 + value) as char
}

/// The decimal text of a number, without leading zeros.
pub open spec fn decimal(value: nat) -> Seq<char>
    decreases value,
{
    if value < 10 {
        seq![digit(value)]
    } else {
        decimal(value / 10).push(digit(value % 10))
    }
}

/// Writes a digit.
fn digit_text(value: usize) -> (res: &'static str)
    requires
        value < 10,
    ensures
        res@ == seq![digit(value as nat)],
{
    proof {
        reveal_strlit("0");
        reveal_strlit("1");
        reveal_strlit("2");
        reveal_strlit("3");
        reveal_strlit("4");
        reveal_strlit("5");
        reveal_strlit("6");
        reveal_strlit("7");
        reveal_strlit("8");
        reveal_strlit("9");
    }
    let res = match value {
        0 => "0",
        1 => "1",
        2 => "2",
        3 => "3",
        4 => "4",
        5 => "5",
        6 => "6",
        7 => "7",
        8 => "8",
        _ => "9",
    };
    assert(res@ =~= seq![digit(value as nat)]);
    res
}

/// Writes a number in decimal, without leading zeros.
pub fn decimal_text(value: usize) -> (res: String)
    ensures
        res@ == decimal(value as nat),
    decreases value,
{
    if value < 10 {
        digit_text(value).to_owned()
    } else {
        let res = decimal_text(value / 10).concat(digit_text(value % 10));
        assert(res@ =~= decimal(value as nat));
        res
    }
}

} // verus!
