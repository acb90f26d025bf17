//! Rate-unit labels and their decimal multipliers.
use vstd::prelude::*;
use crate::text::same_text;

verus! {

pub open spec fn pow10(e: nat) -> nat
    decreases e,
{
    if e == 0 {
        1
    } else {
        10 * pow10((e - 1) as nat)
    }
}

/// The power of ten that a rate label stands for: `k/s` 3, `M/s` 6, `G/s` 9,
/// `T/s` 12, `P/s` 15, `E/s` 18, `Z/s` 21, `Y/s` 24; any other label
/// (`H/s`, the empty one) 0.
pub open spec fn unit_power(u: Seq<char>) -> nat {
    if u == "k/s"@ {
        3
    } else if u == "M/s"@ {
        6
    } else if u == "G/s"@ {
        9
    } else if u == "T/s"@ {
        12
    } else if u == "P/s"@ {
        15
    } else if u == "E/s"@ {
        18
    } else if u == "Z/s"@ {
        21
    } else if u == "Y/s"@ {
        24
    } else {
        0
    }
}

/// The factor that turns a rate reported in `unit` into one per second:
/// ten to the label's power, and 1 for a label outside the table.
pub fn unit_multiplier(unit: &str) -> (r: u128)
    ensures
        r == pow10(unit_power(unit@)),
{
    proof {
        reveal_with_fuel(pow10, 25);
    }
    if same_text(unit, "k/s") {
        1_000
    } else if same_text(unit, "M/s") {
        1_000_000
    } else if same_text(unit, "G/s") {
        1_000_000_000
    } else if same_text(unit, "T/s") {
        1_000_000_000_000
    } else if same_text(unit, "P/s") {
        1_000_000_000_000_000
    } else if same_text(unit, "E/s") {
        1_000_000_000_000_000_000
    } else if same_text(unit, "Z/s") {
        1_000_000_000_000_000_000_000
    } else if same_text(unit, "Y/s") {
        1_000_000_000_000_000_000_000_000
    } else {
        1
    }
}

/// The table in numbers: each label of the table gets its power of ten, and
/// `H/s`, the empty label and an unknown one such as `xyz` get 1.
pub proof fn lemma_unit_table(other: Seq<char>)
    requires
        other != "k/s"@ && other != "M/s"@ && other != "G/s"@ && other != "T/s"@ && other
            != "P/s"@ && other != "E/s"@ && other != "Z/s"@ && other != "Y/s"@,
    ensures
        pow10(unit_power("k/s"@)) == 1_000,
        pow10(unit_power("M/s"@)) == 1_000_000,
        pow10(unit_power("G/s"@)) == 1_000_000_000,
        pow10(unit_power("T/s"@)) == 1_000_000_000_000,
        pow10(unit_power("P/s"@)) == 1_000_000_000_000_000,
        pow10(unit_power("E/s"@)) == 1_000_000_000_000_000_000,
        pow10(unit_power("Z/s"@)) == 1_000_000_000_000_000_000_000,
        pow10(unit_power("Y/s"@)) == 1_000_000_000_000_000_000_000_000,
        pow10(unit_power(other)) == 1,
        pow10(unit_power("H/s"@)) == 1,
        pow10(unit_power(Seq::empty())) == 1,
        pow10(unit_power("xyz"@)) == 1,
{
    reveal_with_fuel(pow10, 25);
    reveal_strlit("k/s");
    reveal_strlit("M/s");
    reveal_strlit("G/s");
    reveal_strlit("T/s");
    reveal_strlit("P/s");
    reveal_strlit("E/s");
    reveal_strlit("Z/s");
    reveal_strlit("Y/s");
    reveal_strlit("H/s");
    reveal_strlit("xyz");
    assert("k/s"@[0] == 'k' && "k/s"@.len() == 3);
    assert("M/s"@[0] == 'M' && "M/s"@.len() == 3);
    assert("G/s"@[0] == 'G' && "G/s"@.len() == 3);
    assert("T/s"@[0] == 'T' && "T/s"@.len() == 3);
    assert("P/s"@[0] == 'P' && "P/s"@.len() == 3);
    assert("E/s"@[0] == 'E' && "E/s"@.len() == 3);
    assert("Z/s"@[0] == 'Z' && "Z/s"@.len() == 3);
    assert("Y/s"@[0] == 'Y' && "Y/s"@.len() == 3);
    assert("H/s"@[0] == 'H');
    assert("xyz"@[0] == 'x');
}

} // verus!
