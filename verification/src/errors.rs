//! Error types of the library.

use vstd::prelude::*;

verus! {

/// An error of the library.
#[derive(Debug)]
pub enum Error {
    /// A grammar failed to compile; the payload is the text that could not
    /// be consumed, for diagnostics.
    CssCompile(String),
}

impl Error {
    /// The text that could not be compiled.
    pub fn leftover(&self) -> (r: &str)
        ensures
            match self {
                Error::CssCompile(s) => r@ == s@,
            },
    {
        match self {
            Error::CssCompile(s) => s.as_str(),
        }
    }
}

} // verus!
