//! The totals of a run.
use vstd::prelude::*;
use vstd::string::*;
use crate::err::{decimal_text, push_decimal_text};

verus! {

/// What a run has counted so far.  Each count stops at the largest number
/// it can hold.
#[derive(Clone, Copy, Debug, PartialEq, Eq, Structural)]
pub struct Summary {
    /// The regular files that reached the linker.
    pub files: usize,
    /// The files that were found to be duplicates.
    pub duplicates: usize,
    /// The sizes of the files that were replaced, added up.
    pub bytes: usize,
    /// The error events.
    pub errors: usize,
}

/// `count + by`, stopping at the largest size.
pub open spec fn capped(count: usize, by: int) -> usize {
    if count + by > usize::MAX {
        usize::MAX
    } else {
        (count + by) as usize
    }
}

impl Summary {
    /// The totals of a run that has not begun.
    pub fn new() -> (summary: Summary)
        ensures
            summary == (Summary { files: 0, duplicates: 0, bytes: 0, errors: 0 }),
    {
        Summary { files: 0, duplicates: 0, bytes: 0, errors: 0 }
    }

    /// Counts a file that reached the linker.
    pub fn file(&mut self)
        ensures
            *final(self) == (Summary { files: capped(old(self).files, 1), ..*old(self) }),
    {
        self.files = self.files.saturating_add(1);
    }

    /// Counts a file that was found to be a duplicate.
    pub fn duplicate(&mut self)
        ensures
            *final(self) == (Summary { duplicates: capped(old(self).duplicates, 1), ..*old(self) }),
    {
        self.duplicates = self.duplicates.saturating_add(1);
    }

    /// Counts the bytes of a file of this size that was replaced.
    pub fn reclaimed(&mut self, size: u64)
        ensures
            *final(self) == (Summary { bytes: capped(old(self).bytes, size as int), ..*old(self) }),
    {
        let size: usize = if size > usize::MAX as u64 {
            usize::MAX
        } else {
            size as usize
        };
        self.bytes = self.bytes.saturating_add(size);
    }

    /// Counts an error event.
    pub fn error(&mut self)
        ensures
            *final(self) == (Summary { errors: capped(old(self).errors, 1), ..*old(self) }),
    {
        self.errors = self.errors.saturating_add(1);
    }

    /// The line that shows the totals.
    pub open spec fn text(self) -> Seq<char> {
        "files: "@ + decimal_text(self.files as nat) + ", duplicates: "@ + decimal_text(
            self.duplicates as nat,
        ) + ", bytes: "@ + decimal_text(self.bytes as nat) + ", errors: "@ + decimal_text(
            self.errors as nat,
        )
    }

    /// Writes the line that shows the totals.
    pub fn report(&self) -> (line: String)
        ensures
            line@ == self.text(),
    {
        let mut line = String::new();
        line.append("files: ");
        push_decimal_text(&mut line, self.files);
        line.append(", duplicates: ");
        push_decimal_text(&mut line, self.duplicates);
        line.append(", bytes: ");
        push_decimal_text(&mut line, self.bytes);
        line.append(", errors: ");
        push_decimal_text(&mut line, self.errors);
        assert(line@ =~= self.text());
        line
    }
}

} // verus!
