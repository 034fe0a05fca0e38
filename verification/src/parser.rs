//! Source positions, diagnostics and named occurrences in a source text.

pub mod error;
pub mod position;

pub use self::error::RlcError;
pub use self::position::Position;

use crate::parser::position::{column_of, line_of, lookup_source, PositionView};
use line_col::LineColLookup;
use vstd::prelude::*;
use vstd::string::StringExecFns;

verus! {

/// A name with the place at which it stands in a source file.
#[derive(Debug)]
pub struct Identifier {
    pub name: String,
    pub position: Position,
}

impl Identifier {
    /// The name `name`, found at byte `offset` of the text behind `lookup`,
    /// which is the text of `file`.
    pub fn new(file: &str, lookup: &LineColLookup, name: &str, offset: usize) -> (r: Self)
        requires
            offset <= lookup_source(lookup).len(),
        ensures
            r.name@ == name@,
            r.position@ == (PositionView {
                file: file@,
                line: line_of(lookup_source(lookup), offset as int),
                column: column_of(lookup_source(lookup), offset as int) as nat,
            }),
    {
        let name = String::from_str(name);
        let position = Position::new(file, lookup, offset);
        Self { name, position }
    }
}

} // verus!
