//! The decisions of the interactive menu layer: which typed character
//! selects which device, menu entry or answer. Drawing the terminal
//! and reading keystrokes is presentation I/O and lives outside the
//! verified world; it feeds the characters it reads through these
//! functions.

use vstd::prelude::*;

verus! {

/// The decimal digit a typed character denotes, if any.
pub open spec fn spec_digit_of(c: char) -> Option<u32> {
    if 48 <= c as u32 && c as u32 <= 57 {
        Some(((c as u32) - 48) as u32)
    } else {
        None
    }
}

/// The device index a typed character selects from a list shown with
/// one-based numbers: digit `d` with `1 <= d <= device_count` picks
/// index `d - 1`.
pub open spec fn spec_select_device(c: char, device_count: int) -> Option<usize> {
    match spec_digit_of(c) {
        Some(d) => if 1 <= d && d <= device_count {
            Some((d - 1) as usize)
        } else {
            None
        },
        None => None,
    }
}

/// The main-menu entry a typed character selects: digits one through
/// four.
pub open spec fn spec_menu_choice(c: char) -> Option<u8> {
    match spec_digit_of(c) {
        Some(d) => if 1 <= d && d <= 4 {
            Some(d as u8)
        } else {
            None
        },
        None => None,
    }
}

/// The answer a typed character gives to a yes/no prompt.
pub open spec fn spec_yes_no(c: char) -> Option<bool> {
    if c == 'y' || c == 'Y' {
        Some(true)
    } else if c == 'n' || c == 'N' {
        Some(false)
    } else {
        None
    }
}

/// The menu layer's decision core. The presentation around it (raw
/// mode, cursor moves, prompts) reads keystrokes and renders state; it
/// asks these methods what each keystroke means and repeats its prompt
/// on `None`.
pub struct UI {
}

impl UI {
    pub fn new() -> (r: UI) {
        UI {  }
    }

    /// The decimal digit a typed character denotes, if any.
    pub fn digit_of(&self, c: char) -> (r: Option<u32>)
        ensures
            r == spec_digit_of(c),
    {
        let u = c as u32;
        if 48 <= u && u <= 57 {
            Some(u - 48)
        } else {
            None
        }
    }

    /// Which device a keystroke selects from a list of
    /// `device_count` devices shown with one-based numbers.
    pub fn select_device(&self, c: char, device_count: usize) -> (r: Option<usize>)
        ensures
            r == spec_select_device(c, device_count as int),
    {
        match self.digit_of(c) {
            Some(d) => {
                if 1 <= d && d as usize <= device_count {
                    Some((d - 1) as usize)
                } else {
                    None
                }
            },
            None => None,
        }
    }

    /// Which main-menu entry a keystroke selects.
    pub fn menu_choice(&self, c: char) -> (r: Option<u8>)
        ensures
            r == spec_menu_choice(c),
    {
        match self.digit_of(c) {
            Some(d) => {
                if 1 <= d && d <= 4 {
                    Some(d as u8)
                } else {
                    None
                }
            },
            None => None,
        }
    }

    /// What a keystroke answers to a yes/no prompt.
    pub fn parse_yes_no(&self, c: char) -> (r: Option<bool>)
        ensures
            r == spec_yes_no(c),
    {
        if c == 'y' || c == 'Y' {
            Some(true)
        } else if c == 'n' || c == 'N' {
            Some(false)
        } else {
            None
        }
    }
}

} // verus!
