//! Line editing on the console: printable keys build a line, backspace removes the last
//! character, enter submits the line.
use vstd::prelude::*;

verus! {

pub const KEY_ENTER: i32 = 13;

pub const KEY_BACKSPACE: i32 = 127;

/// What the console does in answer to a key.
#[derive(Debug, PartialEq, Eq)]
pub enum ConsoleAction {
    /// Run this line, then prompt again.
    Submit(Vec<u8>),
    /// Show this character.
    Echo(u8),
    /// Remove the last character shown.
    Erase,
    /// Nothing.
    Ignore,
}

/// The line being typed.
pub struct LineEditor {
    input_buffer: Vec<u8>,
}

impl LineEditor {
    /// The characters typed so far, as bytes.
    pub closed spec fn line(&self) -> Seq<u8> {
        self.input_buffer@
    }

    pub fn new() -> (r: Self)
        ensures
            r.line() == Seq::<u8>::empty(),
    {
        LineEditor { input_buffer: Vec::new() }
    }

    /// Applies one key: enter submits and clears the line, printable ASCII is appended and
    /// echoed, backspace removes the last character if there is one; other keys are ignored.
    pub fn on_key(&mut self, key: i32) -> (r: ConsoleAction)
        ensures
            key == KEY_ENTER ==> final(self).line() == Seq::<u8>::empty() && (r matches ConsoleAction::Submit(l) && l@ == old(self).line()),
            32 <= key <= 126 ==> final(self).line() == old(self).line().push(key as u8) && r
                == ConsoleAction::Echo(key as u8),
            key == KEY_BACKSPACE ==> if old(self).line().len() > 0 {
                final(self).line() == old(self).line().drop_last() && r == ConsoleAction::Erase
            } else {
                final(self).line() == old(self).line() && r == ConsoleAction::Ignore
            },
            (key != KEY_ENTER && key != KEY_BACKSPACE && !(32 <= key <= 126)) ==> final(self).line()
                == old(self).line() && r == ConsoleAction::Ignore,
    {
        if key == KEY_ENTER {
            let mut line: Vec<u8> = Vec::new();
            std::mem::swap(&mut line, &mut self.input_buffer);
            ConsoleAction::Submit(line)
        } else if 32 <= key && key <= 126 {
            self.input_buffer.push(key as u8);
            ConsoleAction::Echo(key as u8)
        } else if key == KEY_BACKSPACE {
            if self.input_buffer.len() > 0 {
                self.input_buffer.pop();
                ConsoleAction::Erase
            } else {
                ConsoleAction::Ignore
            }
        } else {
            ConsoleAction::Ignore
        }
    }
}

/// Whether a submitted line holds nothing but spaces, and is skipped.
pub fn is_blank(line: &Vec<u8>) -> (r: bool)
    ensures
        r == forall|i: int| 0 <= i < line@.len() ==> line@[i] == 32,
{
    let mut i: usize = 0;
    while i < line.len()
        invariant
            i <= line@.len(),
            forall|k: int| 0 <= k < i ==> line@[k] == 32,
        decreases line@.len() - i,
    {
        if line[i] != 32 {
            return false;
        }
        i = i + 1;
    }
    true
}

} // verus!
