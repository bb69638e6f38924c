use vstd::prelude::*;

use crate::position::Position;

verus! {

/// A diagnostic recorded while compiling a file.
#[derive(Clone, Debug, PartialEq, Eq)]
pub struct Error {
    pub file: String,
    pub category: String,
    pub message: String,
    pub pos: Position,
}

/// What a diagnostic says, as plain values.
pub struct Report {
    pub file: Seq<char>,
    pub category: Seq<char>,
    pub message: Seq<char>,
    pub line: nat,
    pub column: nat,
}

impl View for Error {
    type V = Report;

    open spec fn view(&self) -> Report {
        Report {
            file: self.file@,
            category: self.category@,
            message: self.message@,
            line: self.pos.line as nat,
            column: self.pos.column as nat,
        }
    }
}

/// The reports of a list of diagnostics, in order.
pub open spec fn reports(errors: Seq<Error>) -> Seq<Report> {
    errors.map_values(|e: Error| e@)
}

impl Error {
    /// Creates a diagnostic of `category` in `file`, saying `message`, at `pos`.
    pub fn new(file: String, category: String, message: String, pos: Position) -> (r: Error)
        ensures
            r.file == file,
            r.category == category,
            r.message == message,
            r.pos == pos,
    {
        Error { file, category, message, pos }
    }

    /// What the diagnostic says.
    pub fn message(&self) -> (r: &String)
        ensures
            r == &self.message,
    {
        &self.message
    }
}

} // verus!
