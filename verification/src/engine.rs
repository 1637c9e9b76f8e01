//! A minimal screen engine over raw escape sequences. It computes the
//! text to emit; the caller owns the terminal and writes it out.

use crate::digits::{spec_digits_of, u64_to_string};
use vstd::prelude::*;
use vstd::string::StringExecFns;

verus! {

/// A screen of a fixed size, drawn with raw escape sequences.
pub struct Engine {
    screen: (u16, u16),
}

impl Engine {
    pub closed spec fn spec_screen(&self) -> (u16, u16) {
        self.screen
    }

    /// An engine for a screen of the measured size.
    pub fn new(width: u16, height: u16) -> (r: Self)
        ensures
            r.spec_screen() == (width, height),
    {
        Engine { screen: (width, height) }
    }

    pub fn get_screen_size(&self) -> (r: (u16, u16))
        ensures
            r == self.spec_screen(),
    {
        self.screen
    }

    /// The escape text that clears the screen and homes the cursor; the
    /// caller writes it to the terminal.
    pub fn render(&self) -> (r: String)
        ensures
            r@ == "\u{1b}[2J\u{1b}[H"@,
    {
        String::from_str("\u{1b}[2J\u{1b}[H")
    }

    pub fn rerender() {
    }

    /// Same text as `render`: a full clear.
    pub fn clear(&self) -> (r: String)
        ensures
            r@ == "\u{1b}[2J\u{1b}[H"@,
    {
        String::from_str("\u{1b}[2J\u{1b}[H")
    }

    /// The escape text that places the cursor at the given line and
    /// column; the caller writes it to the terminal.
    pub fn place_cursor(&self, line: u16, column: u16) -> (r: String)
        ensures
            r@ == "\u{1b}["@ + spec_digits_of(line as nat) + ";"@ + spec_digits_of(
                column as nat,
            ) + "H"@,
    {
        proof {
            reveal_strlit("\u{1b}[");
            reveal_strlit(";");
            reveal_strlit("H");
        }
        let s = String::from_str("\u{1b}[");
        let s = s.concat(u64_to_string(line as u64).as_str());
        let s = s.concat(";");
        let s = s.concat(u64_to_string(column as u64).as_str());
        let s = s.concat("H");
        assert(s@ =~= "\u{1b}["@ + spec_digits_of(line as nat) + ";"@ + spec_digits_of(
            column as nat,
        ) + "H"@);
        s
    }
}

} // verus!
