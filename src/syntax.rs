//! The abstract syntax of a Haskell module.

use vstd::prelude::*;
use vstd::string::*;

verus! {

/// A structure representing a Haskell module.
#[derive(Debug, PartialEq, Clone)]
pub struct Module {
    pub extensions: Vec<Extension>,
    pub name: ModuleName,
    pub imports: Vec<Import>,
    pub declarations: Vec<Declaration>,
}

/// What a module is, as plain values.
pub struct ModuleView {
    pub extensions: Seq<Extension>,
    pub name: Seq<char>,
    pub imports: Seq<ImportView>,
    pub declarations: Seq<Declaration>,
}

/// What an import is, as plain values.
pub struct ImportView {
    pub qualified: bool,
    pub module: Seq<char>,
    pub alias: Option<Seq<char>>,
}

impl View for Module {
    type V = ModuleView;

    open spec fn view(&self) -> ModuleView {
        ModuleView {
            extensions: self.extensions@,
            name: self.name@,
            imports: self.imports@.map_values(|i: Import| i@),
            declarations: self.declarations@,
        }
    }
}

impl View for Import {
    type V = ImportView;

    open spec fn view(&self) -> ImportView {
        ImportView {
            qualified: self.qualified,
            module: self.module@,
            alias: match self.alias {
                Some(a) => Some(a@),
                None => None,
            },
        }
    }
}

impl View for ModuleName {
    type V = Seq<char>;

    open spec fn view(&self) -> Seq<char> {
        self.0@
    }
}

impl View for Identifier {
    type V = Seq<char>;

    open spec fn view(&self) -> Seq<char> {
        self.0@
    }
}

/// A language extension.
#[derive(Debug, PartialEq, Eq, Clone, Copy)]
pub enum Extension {
    OverloadedStrings,
}

/// An import.
#[derive(Debug, PartialEq, Clone)]
pub struct Import {
    pub qualified: bool,
    pub module: ModuleName,
    pub alias: Option<ModuleName>,
}

/// How an import qualifies the names it brings into scope.
#[derive(Debug, PartialEq, Clone)]
pub enum Qualified {
    Unqualified,
    Qualified,
    QualifiedAs(ModuleName),
}

/// A module name, held as its dotted text (`Control.Monad`).
#[derive(Debug, PartialEq, Clone)]
pub struct ModuleName(pub String);

impl ModuleName {
    /// A module name holding a copy of `s`.
    pub fn from_string(s: &str) -> (r: Self)
        ensures
            r.0@ == s@,
    {
        ModuleName(String::from_str(s))
    }
}

/// The kind of a top-level declaration.
#[derive(Debug, PartialEq, Eq, Clone, Copy)]
pub enum Declaration {
    Data,
    Type,
    Newtype,
    Value,
    Splice,
}

/// An identifier.
#[derive(Debug, PartialEq, Clone)]
pub struct Identifier(pub String);

impl Identifier {
    /// An identifier holding a copy of `s`.
    pub fn from_string(s: &str) -> (r: Self)
        ensures
            r.0@ == s@,
    {
        Identifier(String::from_str(s))
    }
}

} // verus!
