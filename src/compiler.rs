use vstd::prelude::*;

use crate::error::Error;

verus! {

/// A compilation unit: the name of a source file, its text, and the
/// diagnostics recorded while compiling it.
pub struct Compiler {
    pub input: String,
    pub contents: String,
    pub errors: Vec<Error>,
}

impl Compiler {
    /// A compilation unit for the file named `input` whose text is `contents`,
    /// with no diagnostics yet.
    pub fn new_using_str(input: String, contents: String) -> (r: Compiler)
        ensures
            r.input == input,
            r.contents == contents,
            r.errors@.len() == 0,
    {
        Compiler { input, contents, errors: Vec::new() }
    }
}

} // verus!
