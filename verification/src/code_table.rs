//! The ITA2 code table: a bidirectional mapping from supported characters
//! to 5-bit code words, partitioned into the Letters and Figures pages,
//! plus the two reserved shift code words.

use vstd::prelude::*;

verus! {

/// The two ITA2 code pages. A transmitted 5-bit pattern is read against
/// the page selected by the most recent shift code word.
#[derive(Clone, Copy, Debug, PartialEq, Eq, Structural)]
pub enum Case {
    Letters,
    Figures,
}

/// A 5-bit telegraph code word. Bit 0 is transmitted first and is stored
/// in the most significant of the five low bits of `value`, so a binary
/// literal reads left to right in transmission order: 'A' = 11000 is
/// `0b11000`.
#[derive(Clone, Copy, Debug, PartialEq, Eq, Structural)]
pub struct CodeWord {
    pub value: u8,
}

impl CodeWord {
    /// Exactly five bits: the three high bits of `value` are clear.
    pub open spec fn wf(self) -> bool {
        self.value < 32
    }

    /// Bit `j` of this code word, 0-indexed in transmission order:
    /// `true` is Mark, `false` is Space.
    pub fn bit(&self, j: usize) -> (b: bool)
        requires
            j < 5,
        ensures
            b == code_bit(*self, j as int),
    {
        let sh: u8 = (4 - j) as u8;
        ((self.value >> sh) & 1) == 1
    }
}

/// Bit `j` (0-indexed, transmitted first) of code word `w`: `true` is
/// Mark, `false` is Space.
pub open spec fn code_bit(w: CodeWord, j: int) -> bool
    recommends
        0 <= j < 5,
{
    (w.value >> ((4 - j) as u8)) & 1 == 1
}

/// The (Case, CodeWord) pair assigned to a character, or `None` when the
/// character is outside the supported alphabet (uppercase A-Z and space in
/// the Letters page; digits 0-9 and period in the Figures page).
pub open spec fn lookup_spec(c: char) -> Option<(Case, CodeWord)> {
    if c == 'A' {
        Some((Case::Letters, CodeWord { value: 0b11000 }))
    } else if c == 'B' {
        Some((Case::Letters, CodeWord { value: 0b10011 }))
    } else if c == 'C' {
        Some((Case::Letters, CodeWord { value: 0b01110 }))
    } else if c == 'D' {
        Some((Case::Letters, CodeWord { value: 0b10010 }))
    } else if c == 'E' {
        Some((Case::Letters, CodeWord { value: 0b10000 }))
    } else if c == 'F' {
        Some((Case::Letters, CodeWord { value: 0b10110 }))
    } else if c == 'G' {
        Some((Case::Letters, CodeWord { value: 0b01011 }))
    } else if c == 'H' {
        Some((Case::Letters, CodeWord { value: 0b00101 }))
    } else if c == 'I' {
        Some((Case::Letters, CodeWord { value: 0b01100 }))
    } else if c == 'J' {
        Some((Case::Letters, CodeWord { value: 0b11010 }))
    } else if c == 'K' {
        Some((Case::Letters, CodeWord { value: 0b11110 }))
    } else if c == 'L' {
        Some((Case::Letters, CodeWord { value: 0b01001 }))
    } else if c == 'M' {
        Some((Case::Letters, CodeWord { value: 0b00111 }))
    } else if c == 'N' {
        Some((Case::Letters, CodeWord { value: 0b00110 }))
    } else if c == 'O' {
        Some((Case::Letters, CodeWord { value: 0b00011 }))
    } else if c == 'P' {
        Some((Case::Letters, CodeWord { value: 0b01101 }))
    } else if c == 'Q' {
        Some((Case::Letters, CodeWord { value: 0b11101 }))
    } else if c == 'R' {
        Some((Case::Letters, CodeWord { value: 0b01010 }))
    } else if c == 'S' {
        Some((Case::Letters, CodeWord { value: 0b10100 }))
    } else if c == 'T' {
        Some((Case::Letters, CodeWord { value: 0b00001 }))
    } else if c == 'U' {
        Some((Case::Letters, CodeWord { value: 0b11100 }))
    } else if c == 'V' {
        Some((Case::Letters, CodeWord { value: 0b01111 }))
    } else if c == 'W' {
        Some((Case::Letters, CodeWord { value: 0b11001 }))
    } else if c == 'X' {
        Some((Case::Letters, CodeWord { value: 0b10111 }))
    } else if c == 'Y' {
        Some((Case::Letters, CodeWord { value: 0b10101 }))
    } else if c == 'Z' {
        Some((Case::Letters, CodeWord { value: 0b10001 }))
    } else if c == ' ' {
        Some((Case::Letters, CodeWord { value: 0b00100 }))
    } else if c == '0' {
        Some((Case::Figures, CodeWord { value: 0b01101 }))
    } else if c == '1' {
        Some((Case::Figures, CodeWord { value: 0b10111 }))
    } else if c == '2' {
        Some((Case::Figures, CodeWord { value: 0b10011 }))
    } else if c == '3' {
        Some((Case::Figures, CodeWord { value: 0b10000 }))
    } else if c == '4' {
        Some((Case::Figures, CodeWord { value: 0b01010 }))
    } else if c == '5' {
        Some((Case::Figures, CodeWord { value: 0b00001 }))
    } else if c == '6' {
        Some((Case::Figures, CodeWord { value: 0b10101 }))
    } else if c == '7' {
        Some((Case::Figures, CodeWord { value: 0b11100 }))
    } else if c == '8' {
        Some((Case::Figures, CodeWord { value: 0b01100 }))
    } else if c == '9' {
        Some((Case::Figures, CodeWord { value: 0b00011 }))
    } else if c == '.' {
        Some((Case::Figures, CodeWord { value: 0b00111 }))
    } else {
        None
    }
}

/// The code page a character belongs to, or `None` when unsupported.
pub open spec fn char_case(c: char) -> Option<Case> {
    match lookup_spec(c) {
        Some((k, _)) => Some(k),
        None => None,
    }
}

/// The reserved shift code word that selects page `k`:
/// 11111 for Letters, 11011 for Figures.
pub open spec fn shift_code_spec(k: Case) -> CodeWord {
    match k {
        Case::Letters => CodeWord { value: 0b11111 },
        Case::Figures => CodeWord { value: 0b11011 },
    }
}

/// Looks a character up in the code table: its page and code word, or
/// `None` when the character is outside the supported alphabet.
pub fn lookup(c: char) -> (r: Option<(Case, CodeWord)>)
    ensures
        r == lookup_spec(c),
        r matches Some((k, w)) ==> w.wf(),
{
    if c == 'A' {
        Some((Case::Letters, CodeWord { value: 0b11000 }))
    } else if c == 'B' {
        Some((Case::Letters, CodeWord { value: 0b10011 }))
    } else if c == 'C' {
        Some((Case::Letters, CodeWord { value: 0b01110 }))
    } else if c == 'D' {
        Some((Case::Letters, CodeWord { value: 0b10010 }))
    } else if c == 'E' {
        Some((Case::Letters, CodeWord { value: 0b10000 }))
    } else if c == 'F' {
        Some((Case::Letters, CodeWord { value: 0b10110 }))
    } else if c == 'G' {
        Some((Case::Letters, CodeWord { value: 0b01011 }))
    } else if c == 'H' {
        Some((Case::Letters, CodeWord { value: 0b00101 }))
    } else if c == 'I' {
        Some((Case::Letters, CodeWord { value: 0b01100 }))
    } else if c == 'J' {
        Some((Case::Letters, CodeWord { value: 0b11010 }))
    } else if c == 'K' {
        Some((Case::Letters, CodeWord { value: 0b11110 }))
    } else if c == 'L' {
        Some((Case::Letters, CodeWord { value: 0b01001 }))
    } else if c == 'M' {
        Some((Case::Letters, CodeWord { value: 0b00111 }))
    } else if c == 'N' {
        Some((Case::Letters, CodeWord { value: 0b00110 }))
    } else if c == 'O' {
        Some((Case::Letters, CodeWord { value: 0b00011 }))
    } else if c == 'P' {
        Some((Case::Letters, CodeWord { value: 0b01101 }))
    } else if c == 'Q' {
        Some((Case::Letters, CodeWord { value: 0b11101 }))
    } else if c == 'R' {
        Some((Case::Letters, CodeWord { value: 0b01010 }))
    } else if c == 'S' {
        Some((Case::Letters, CodeWord { value: 0b10100 }))
    } else if c == 'T' {
        Some((Case::Letters, CodeWord { value: 0b00001 }))
    } else if c == 'U' {
        Some((Case::Letters, CodeWord { value: 0b11100 }))
    } else if c == 'V' {
        Some((Case::Letters, CodeWord { value: 0b01111 }))
    } else if c == 'W' {
        Some((Case::Letters, CodeWord { value: 0b11001 }))
    } else if c == 'X' {
        Some((Case::Letters, CodeWord { value: 0b10111 }))
    } else if c == 'Y' {
        Some((Case::Letters, CodeWord { value: 0b10101 }))
    } else if c == 'Z' {
        Some((Case::Letters, CodeWord { value: 0b10001 }))
    } else if c == ' ' {
        Some((Case::Letters, CodeWord { value: 0b00100 }))
    } else if c == '0' {
        Some((Case::Figures, CodeWord { value: 0b01101 }))
    } else if c == '1' {
        Some((Case::Figures, CodeWord { value: 0b10111 }))
    } else if c == '2' {
        Some((Case::Figures, CodeWord { value: 0b10011 }))
    } else if c == '3' {
        Some((Case::Figures, CodeWord { value: 0b10000 }))
    } else if c == '4' {
        Some((Case::Figures, CodeWord { value: 0b01010 }))
    } else if c == '5' {
        Some((Case::Figures, CodeWord { value: 0b00001 }))
    } else if c == '6' {
        Some((Case::Figures, CodeWord { value: 0b10101 }))
    } else if c == '7' {
        Some((Case::Figures, CodeWord { value: 0b11100 }))
    } else if c == '8' {
        Some((Case::Figures, CodeWord { value: 0b01100 }))
    } else if c == '9' {
        Some((Case::Figures, CodeWord { value: 0b00011 }))
    } else if c == '.' {
        Some((Case::Figures, CodeWord { value: 0b00111 }))
    } else {
        None
    }
}

/// Returns the reserved shift code word that selects page `k`.
pub fn shift_code(k: Case) -> (r: CodeWord)
    ensures
        r == shift_code_spec(k),
        r.wf(),
{
    match k {
        Case::Letters => CodeWord { value: 0b11111 },
        Case::Figures => CodeWord { value: 0b11011 },
    }
}

} // verus!
