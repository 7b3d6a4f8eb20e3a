//! Morse code: the dit/dah pattern of each letter and digit.

use vstd::prelude::*;

verus! {

/// The dit/dah pattern of an upper-case letter or a digit, `false` for a
/// dit and `true` for a dah; empty for any other character.
pub open spec fn morse_pattern(c: char) -> Seq<bool> {
    if c == 'A' { seq![false, true] }
    else if c == 'B' { seq![true, false, false, false] }
    else if c == 'C' { seq![true, false, true, false] }
    else if c == 'D' { seq![true, false, false] }
    else if c == 'E' { seq![false] }
    else if c == 'F' { seq![false, false, true, false] }
    else if c == 'G' { seq![true, true, false] }
    else if c == 'H' { seq![false, false, false, false] }
    else if c == 'I' { seq![false, false] }
    else if c == 'J' { seq![false, true, true, true] }
    else if c == 'K' { seq![true, false, true] }
    else if c == 'L' { seq![false, true, false, false] }
    else if c == 'M' { seq![true, true] }
    else if c == 'N' { seq![true, false] }
    else if c == 'O' { seq![true, true, true] }
    else if c == 'P' { seq![false, true, true, false] }
    else if c == 'Q' { seq![true, true, false, true] }
    else if c == 'R' { seq![false, true, false] }
    else if c == 'S' { seq![false, false, false] }
    else if c == 'T' { seq![true] }
    else if c == 'U' { seq![false, false, true] }
    else if c == 'V' { seq![false, false, false, true] }
    else if c == 'W' { seq![false, true, true] }
    else if c == 'X' { seq![true, false, false, true] }
    else if c == 'Y' { seq![true, false, true, true] }
    else if c == 'Z' { seq![true, true, false, false] }
    else if c == '1' { seq![false, true, true, true, true] }
    else if c == '2' { seq![false, false, true, true, true] }
    else if c == '3' { seq![false, false, false, true, true] }
    else if c == '4' { seq![false, false, false, false, true] }
    else if c == '5' { seq![false, false, false, false, false] }
    else if c == '6' { seq![true, false, false, false, false] }
    else if c == '7' { seq![true, true, false, false, false] }
    else if c == '8' { seq![true, true, true, false, false] }
    else if c == '9' { seq![true, true, true, true, false] }
    else if c == '0' { seq![true, true, true, true, true] }
    else { Seq::empty() }
}

/// Return the dit/dah pattern for an alphanumeric character: `false` = dit,
/// `true` = dah; empty for unsupported characters.
pub fn morse(c: char) -> (p: &'static [bool])
    ensures
        p@ == morse_pattern(c),
{
    let r: &'static [bool] = match c {
        'A' => &[false, true],
        'B' => &[true, false, false, false],
        'C' => &[true, false, true, false],
        'D' => &[true, false, false],
        'E' => &[false],
        'F' => &[false, false, true, false],
        'G' => &[true, true, false],
        'H' => &[false, false, false, false],
        'I' => &[false, false],
        'J' => &[false, true, true, true],
        'K' => &[true, false, true],
        'L' => &[false, true, false, false],
        'M' => &[true, true],
        'N' => &[true, false],
        'O' => &[true, true, true],
        'P' => &[false, true, true, false],
        'Q' => &[true, true, false, true],
        'R' => &[false, true, false],
        'S' => &[false, false, false],
        'T' => &[true],
        'U' => &[false, false, true],
        'V' => &[false, false, false, true],
        'W' => &[false, true, true],
        'X' => &[true, false, false, true],
        'Y' => &[true, false, true, true],
        'Z' => &[true, true, false, false],
        '1' => &[false, true, true, true, true],
        '2' => &[false, false, true, true, true],
        '3' => &[false, false, false, true, true],
        '4' => &[false, false, false, false, true],
        '5' => &[false, false, false, false, false],
        '6' => &[true, false, false, false, false],
        '7' => &[true, true, false, false, false],
        '8' => &[true, true, true, false, false],
        '9' => &[true, true, true, true, false],
        '0' => &[true, true, true, true, true],
        _ => &[],
    };
    r
}

} // verus!
