//! Source positions and the error taxonomy of the pipeline.

use vstd::prelude::*;

verus! {

/// A position in a source file: one-based line and column.
#[derive(Clone, Copy, PartialEq, Eq, Structural, Debug)]
pub struct Pos {
    pub line: usize,
    pub col: usize,
}

impl Pos {
    pub fn start() -> (r: Pos)
        ensures
            r.line == 1 && r.col == 1,
    {
        Pos { line: 1, col: 1 }
    }
}

/// A lexical or grammatical failure, at a position.
#[derive(Clone, Debug)]
pub struct SyntaxError {
    pub pos: Pos,
    pub detail: Vec<char>,
}

/// Failure to resolve an `import` statement.
#[derive(Clone, Debug)]
pub enum ImportError {
    /// No include directory holds the imported path.
    NotFound { path: Vec<char> },
    /// Closing the import edge would create a cycle; the sequence of file
    /// paths on the cycle, each importing the next, the last importing the
    /// first.
    Cycle { path_sequence: Vec<Vec<char>> },
}

/// Failure to bind a type reference to a declared symbol.
#[derive(Clone, Debug)]
pub enum NameResolutionError {
    /// No symbol with this name is visible from the referencing scope.
    Unresolved { reference: Vec<char>, pos: Pos },
    /// More than one symbol with this name is declared in the innermost
    /// scope in which the name resolves at all.
    Ambiguous { reference: Vec<char>, pos: Pos },
}

/// The structural rule a declaration breaks.
#[derive(Clone, Copy, PartialEq, Eq, Structural, Debug)]
pub enum ValidationKind {
    DuplicateFieldNumber,
    FieldNumberOutOfRange,
    FieldNumberReserved,
    DuplicateEnumValue,
    EmptyEnum,
    MapKeyNotComparable,
    MapFieldShape,
    SyntaxFeatureRestriction,
    ExtensionRangeInvalid,
    MethodTypeNotMessage,
    DuplicateSymbol,
}

/// One structural-rule violation, with its position and, where the rule
/// relates two declarations (a duplicate), the other position too.
#[derive(Clone, Copy, PartialEq, Eq, Structural, Debug)]
pub struct ValidationError {
    pub kind: ValidationKind,
    pub pos: Pos,
    pub other_pos: Pos,
}

/// Any terminal failure of the pipeline.
#[derive(Clone, Debug)]
pub enum CompileError {
    Syntax { file: Vec<char>, error: SyntaxError },
    Import(ImportError),
    Name { file: Vec<char>, error: NameResolutionError },
    /// All violations found in the first file that has any.
    Validation { file: Vec<char>, errors: Vec<ValidationError> },
}

} // verus!
