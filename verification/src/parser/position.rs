//! Positions in a source text, as a file name with a line and a column.

use line_col::LineColLookup;
use vstd::prelude::*;
use vstd::string::StringExecFns;
use vstd::string::StringSliceAdditionalSpecFns;

verus! {

/// The lookup table of the `line_col` crate, which turns byte offsets of a
/// text into line and column numbers. Its contents are opaque here.
#[verifier::external_type_specification]
#[verifier::external_body]
pub struct ExLineColLookup<'source>(LineColLookup<'source>);

/// The bytes of the text that a lookup table was made for.
pub uninterp spec fn lookup_source(lookup: &LineColLookup) -> Seq<u8>;

/// The byte that ends a line.
pub open spec fn is_line_break(b: u8) -> bool {
    b == 10u8
}

/// How many line breaks stand among the first `index` bytes of `src`.
pub open spec fn line_breaks_before(src: Seq<u8>, index: int) -> nat
    decreases index,
{
    if index <= 0 {
        0
    } else if is_line_break(src[index - 1]) {
        line_breaks_before(src, index - 1) + 1
    } else {
        line_breaks_before(src, index - 1)
    }
}

/// The offset at which the line that holds offset `index` begins: the offset
/// after the last line break before `index`, or 0.
pub open spec fn line_start(src: Seq<u8>, index: int) -> int
    decreases index,
{
    if index <= 0 {
        0
    } else if is_line_break(src[index - 1]) {
        index
    } else {
        line_start(src, index - 1)
    }
}

/// The 1-based line of offset `index` in `src`.
pub open spec fn line_of(src: Seq<u8>, index: int) -> nat {
    line_breaks_before(src, index) + 1
}

/// The 1-based column of offset `index` in `src`, counted in bytes.
pub open spec fn column_of(src: Seq<u8>, index: int) -> int {
    index - line_start(src, index) + 1
}

/// `LineColLookup::new`. Trusted: the table answers for the text it was given.
pub assume_specification<'source>[ LineColLookup::<'source>::new ](src: &'source str) -> (lookup:
    LineColLookup<'source>)
    ensures
        lookup_source(&lookup) == src.spec_bytes(),
;

/// `LineColLookup::get`. Trusted: for an offset up to the length of the text
/// (beyond it the call panics) it returns the 1-based line and the 1-based
/// column, in bytes, of that offset.
#[verifier::external_body]
fn lookup_line_col(lookup: &LineColLookup, offset: usize) -> (r: (usize, usize))
    requires
        offset <= lookup_source(lookup).len(),
    ensures
        r.0 == line_of(lookup_source(lookup), offset as int),
        r.1 == column_of(lookup_source(lookup), offset as int),
{
    lookup.get(offset)
}

/// A place in a source file.
#[derive(Debug, PartialEq, Eq, Hash)]
pub struct Position {
    pub file: String,
    pub line: usize,
    pub column: usize,
}

/// The mathematical value of a [`Position`].
pub struct PositionView {
    pub file: Seq<char>,
    pub line: nat,
    pub column: nat,
}

impl View for Position {
    type V = PositionView;

    open spec fn view(&self) -> PositionView {
        PositionView { file: self.file@, line: self.line as nat, column: self.column as nat }
    }
}

impl DeepView for Position {
    type V = PositionView;

    open spec fn deep_view(&self) -> PositionView {
        self.view()
    }
}

impl Clone for Position {
    fn clone(&self) -> (r: Self)
        ensures
            r == *self,
    {
        Position { file: self.file.clone(), line: self.line, column: self.column }
    }
}

impl Position {
    /// The position of byte `offset` of the text behind `lookup`, in `file`.
    pub fn new(file: &str, lookup: &LineColLookup, offset: usize) -> (r: Self)
        requires
            offset <= lookup_source(lookup).len(),
        ensures
            r@.file == file@,
            r@.line == line_of(lookup_source(lookup), offset as int),
            r@.column == column_of(lookup_source(lookup), offset as int),
    {
        let (line, column) = lookup_line_col(lookup, offset);
        Position { file: String::from_str(file), line, column }
    }

    /// The position of byte `offset` of `text`, or `None` where `text` has no
    /// such offset.
    pub fn locate(file: &str, text: &str, offset: usize) -> (r: Option<Self>)
        ensures
            offset > text.spec_bytes().len() ==> r is None,
            offset <= text.spec_bytes().len() ==> r is Some && r->0@ == (PositionView {
                file: file@,
                line: line_of(text.spec_bytes(), offset as int),
                column: column_of(text.spec_bytes(), offset as int) as nat,
            }),
    {
        if offset > text.as_bytes().len() {
            return None;
        }
        let lookup = LineColLookup::new(text);
        Some(Position::new(file, &lookup, offset))
    }
}

} // verus!
