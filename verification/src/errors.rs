//! Structured diagnostics for the lowering pass.
//!
//! The builder records every semantic error it meets in an
//! [`ErrorManager`] and carries on where it can; translation succeeds
//! only when the manager stayed empty.  No partial IR is handed to a
//! back end on failure.

use vstd::prelude::*;

verus! {

/// The semantic errors the lowering pass can surface.
#[derive(Clone, Copy, PartialEq, Eq, Structural, Debug)]
pub enum BuildErrorKind {
    /// A name that is neither a variable, a constant, nor a function.
    UnknownIdentifier,
    /// A literal or expression of the wrong type for its destination.
    TypeMismatch,
    /// A non-void function whose body can end without a return.
    MissingReturn,
    /// An operator or statement applied where it is not supported.
    UnsupportedOperation,
    /// A name declared twice in the same scope.
    DuplicateSymbol,
}

/// One recorded diagnostic: the kind, the offending name or source
/// line, and the line number when one is known.
pub struct BuildError {
    pub kind: BuildErrorKind,
    pub subject: String,
    pub line_no: i32,
}

/// The diagnostic sink.  It is owned by the builder and passed by
/// mutable reference through lowering.
pub struct ErrorManager {
    pub errors: Vec<BuildError>,
}

/// Creates an empty diagnostic sink.
pub fn create_error_manager() -> (m: ErrorManager)
    ensures
        m.errors@.len() == 0,
{
    ErrorManager { errors: Vec::new() }
}

impl ErrorManager {
    /// Records one diagnostic.
    pub fn add(&mut self, kind: BuildErrorKind, subject: String, line_no: i32)
        ensures
            final(self).errors@.len() == old(self).errors@.len() + 1,
            final(self).errors@.last().kind == kind,
            final(self).errors@.last().subject@ == subject@,
            final(self).errors@.last().line_no == line_no,
            forall|i: int|
                0 <= i < old(self).errors@.len() ==> final(self).errors@[i] == old(
                    self,
                ).errors@[i],
    {
        self.errors.push(BuildError { kind, subject, line_no });
    }

    /// Number of diagnostics recorded so far.
    pub fn count(&self) -> (n: usize)
        ensures
            n == self.errors@.len(),
    {
        self.errors.len()
    }
}

} // verus!
