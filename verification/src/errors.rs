use vstd::prelude::*;

verus! {

/// The failure conditions this subsystem can report to the editor core.
/// All are terminal for the operation that raised them; nothing is retried.
#[derive(Clone, Copy, Debug, PartialEq, Eq, Structural)]
pub enum UiError {
    /// A write or flush to the terminal's output stream failed.
    TerminalWrite,
    /// Reading the next input event from the terminal failed.
    TerminalRead,
    /// The user cancelled the current input operation.
    Interrupted,
    /// A requested line range does not exist in the given buffer.
    InvalidSelection,
}

impl UiError {
    /// The fixed descriptive reason for this error, as a sequence of
    /// characters.
    pub open spec fn reason_spec(self) -> Seq<char> {
        match self {
            UiError::TerminalWrite => "terminal write failed"@,
            UiError::TerminalRead => "terminal read failed"@,
            UiError::Interrupted => "interrupted"@,
            UiError::InvalidSelection => "selection not in buffer"@,
        }
    }

    /// A fixed descriptive reason for the error, for the caller to report.
    pub fn reason(&self) -> (r: &'static str)
        ensures
            r@ == self.reason_spec(),
    {
        match self {
            UiError::TerminalWrite => "terminal write failed",
            UiError::TerminalRead => "terminal read failed",
            UiError::Interrupted => "interrupted",
            UiError::InvalidSelection => "selection not in buffer",
        }
    }
}

} // verus!
