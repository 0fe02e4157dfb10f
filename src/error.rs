//! Parse errors: where parsing stopped and what was expected there.

use vstd::prelude::*;
use vstd::string::*;

verus! {

/// What a grammar rule expected where it failed.
#[derive(Debug, PartialEq, Eq, Clone, Copy)]
pub enum ErrorKind {
    /// A lowercase letter or `_` to start an identifier.
    ExpectedIdentifier,
    /// An uppercase letter to start a module name.
    ExpectedModuleName,
    /// The `module` keyword that opens the module header.
    ExpectedModuleHeader,
    /// The `where` keyword that closes the module header.
    ExpectedWhere,
    /// The name of a language extension inside a pragma.
    ExpectedExtensionName,
    /// A pragma name that is not a known extension; `found` holds it.
    UnknownExtension,
    /// A `,` or the `#-}` that closes a pragma.
    ExpectedPragmaClose,
    /// The name of the type that a `data`, `type` or `newtype` declaration introduces.
    ExpectedTypeName,
    /// The end of the input, where no declaration could start.
    UnexpectedInput,
}

/// A failed parse, as plain values.
pub struct Failure {
    pub position: int,
    pub kind: ErrorKind,
    pub found: Seq<char>,
}

/// A failed parse: the offset (in characters) where it stopped, what was
/// expected there, and, for an unknown extension, the offending text.
#[derive(Debug, PartialEq, Clone)]
pub struct ParseError {
    pub position: usize,
    pub kind: ErrorKind,
    pub found: String,
}

impl View for ParseError {
    type V = Failure;

    open spec fn view(&self) -> Failure {
        Failure { position: self.position as int, kind: self.kind, found: self.found@ }
    }
}

/// A failure with nothing to report but its place and kind.
pub open spec fn failure(position: int, kind: ErrorKind) -> Failure {
    Failure { position, kind, found: Seq::empty() }
}

pub open spec fn description(kind: ErrorKind) -> Seq<char> {
    match kind {
        ErrorKind::ExpectedIdentifier => "identifier starting with a lowercase letter or underscore"@,
        ErrorKind::ExpectedModuleName => "module name starting with an uppercase letter"@,
        ErrorKind::ExpectedModuleHeader => "module header"@,
        ErrorKind::ExpectedWhere => "'where' after the module name"@,
        ErrorKind::ExpectedExtensionName => "language extension name"@,
        ErrorKind::UnknownExtension => "known language extension"@,
        ErrorKind::ExpectedPragmaClose => "',' or '#-}'"@,
        ErrorKind::ExpectedTypeName => "type name starting with an uppercase letter"@,
        ErrorKind::UnexpectedInput => "declaration or end of input"@,
    }
}

impl ParseError {
    pub fn new(position: usize, kind: ErrorKind) -> (r: Self)
        ensures
            r@ == failure(position as int, kind),
    {
        ParseError { position, kind, found: String::new() }
    }

    /// What was expected where parsing stopped, in words.
    pub fn expected(&self) -> (r: String)
        ensures
            r@ == description(self.kind),
    {
        let text = match self.kind {
            ErrorKind::ExpectedIdentifier => "identifier starting with a lowercase letter or underscore",
            ErrorKind::ExpectedModuleName => "module name starting with an uppercase letter",
            ErrorKind::ExpectedModuleHeader => "module header",
            ErrorKind::ExpectedWhere => "'where' after the module name",
            ErrorKind::ExpectedExtensionName => "language extension name",
            ErrorKind::UnknownExtension => "known language extension",
            ErrorKind::ExpectedPragmaClose => "',' or '#-}'",
            ErrorKind::ExpectedTypeName => "type name starting with an uppercase letter",
            ErrorKind::UnexpectedInput => "declaration or end of input",
        };
        String::from_str(text)
    }
}

} // verus!
