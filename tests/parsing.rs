use haskell_parser::error::{ErrorKind, ParseError};
use haskell_parser::parse_module;
use haskell_parser::{parse_identifier, parse_module_name};
use haskell_parser::syntax::{Declaration, Extension, Identifier, Import, Module, ModuleName};

fn is_err<T, E>(x: Result<T, E>) -> bool {
    match x {
        Ok(_) => false,
        _ => true,
    }
}

fn parse_as<A: std::fmt::Debug + PartialEq>(x: Result<(A, &str), ParseError>, t: A) {
    assert_eq!(x, Ok((t, "")))
}

fn error_of<T: std::fmt::Debug>(x: Result<T, ParseError>) -> (usize, ErrorKind) {
    let e = x.unwrap_err();
    (e.position, e.kind)
}

#[test]
fn identifiers() {
    parse_as(parse_identifier("hello"), Identifier::from_string("hello"))
}

#[test]
fn underscore() {
    parse_as(parse_identifier("_Left"), Identifier::from_string("_Left"))
}

#[test]
fn primes() {
    parse_as(parse_identifier("don't"), Identifier::from_string("don't"))
}

#[test]
fn digits() {
    parse_as(parse_identifier("foo22"), Identifier::from_string("foo22"))
}

#[test]
fn must_be_lowercase_first() {
    assert!(is_err(parse_identifier("Left")));
    assert!(is_err(parse_identifier("1asdf")));
    assert!(is_err(parse_identifier("'foobar")))
}

#[test]
fn module_name_passes() {
    parse_as(parse_module_name("Foobar"), ModuleName::from_string("Foobar"))
}

#[test]
fn can_have_dots() {
    parse_as(parse_module_name("Control.Monad"), ModuleName::from_string("Control.Monad"))
}

#[test]
fn can_have_underscores() {
    parse_as(parse_module_name("Control_Monad"), ModuleName::from_string("Control_Monad"))
}

#[test]
fn invalid_modules() {
    let parse = |x| parse_module_name(x);
    assert!(is_err(parse("foo")));
    assert!(is_err(parse("_asdf")));
    assert!(is_err(parse("3werty")));
    assert!(is_err(parse("Hello'World")))
}

#[test]
fn bare_underscore_is_an_identifier() {
    parse_as(parse_identifier("_"), Identifier::from_string("_"));
    parse_as(parse_identifier("x'y_Z9"), Identifier::from_string("x'y_Z9"));
}

#[test]
fn identifier_failure_consumes_nothing() {
    for text in ["Left", "1asdf", "'foobar", ""] {
        assert_eq!(error_of(parse_identifier(text)), (0, ErrorKind::ExpectedIdentifier));
    }
}

#[test]
fn module_name_failure_consumes_nothing() {
    for text in ["foo", "_asdf", "3werty", "Hello'World", ""] {
        assert_eq!(error_of(parse_module_name(text)), (0, ErrorKind::ExpectedModuleName));
    }
}

#[test]
fn identifier_leaves_the_rest() {
    let (first, rest) = parse_identifier("foo  bar").unwrap();
    assert_eq!(first, Identifier::from_string("foo"));
    assert_eq!(rest, "bar");
    let (second, rest) = parse_identifier(rest).unwrap();
    assert_eq!(second, Identifier::from_string("bar"));
    assert_eq!(rest, "");
    assert!(is_err(parse_identifier(rest)));
}

#[test]
fn identifier_stops_at_a_symbol() {
    let (first, rest) = parse_identifier("f.g").unwrap();
    assert_eq!(first, Identifier::from_string("f"));
    assert_eq!(rest, ".g");
    assert_eq!(error_of(parse_identifier(rest)), (0, ErrorKind::ExpectedIdentifier));
}

#[test]
fn module_name_leaves_the_rest() {
    let (first, rest) = parse_module_name("Data.Map\n  Foo rest").unwrap();
    assert_eq!(first, ModuleName::from_string("Data.Map"));
    assert_eq!(rest, "Foo rest");
    let (second, rest) = parse_module_name(rest).unwrap();
    assert_eq!(second, ModuleName::from_string("Foo"));
    assert_eq!(rest, "rest");
    assert!(is_err(parse_module_name(rest)));
}

#[test]
fn whole_module() {
    let text = "{-# LANGUAGE OverloadedStrings #-}\nmodule Main where\nimport qualified Data.Map as M\nmain = print 1\n";
    let expected = Module {
        extensions: vec![Extension::OverloadedStrings],
        name: ModuleName::from_string("Main"),
        imports: vec![Import {
            qualified: true,
            module: ModuleName::from_string("Data.Map"),
            alias: Some(ModuleName::from_string("M")),
        }],
        declarations: vec![Declaration::Value],
    };
    assert_eq!(parse_module(text), Ok(expected));
}

#[test]
fn empty_module_body() {
    let m = parse_module("module Foo where").unwrap();
    assert_eq!(m.extensions, vec![]);
    assert_eq!(m.name, ModuleName::from_string("Foo"));
    assert_eq!(m.imports, vec![]);
    assert_eq!(m.declarations, vec![]);
}

#[test]
fn every_declaration_kind() {
    let text = "module A.B where\n\
                import Prelude\n\
                import Data.List as L\n\
                data T = A\n  | B\n\n\
                type S = T\n\
                newtype N = N Int\n\
                $(makeLenses ''T)\n\
                x = 1\n  where y = 2\n";
    let m = parse_module(text).unwrap();
    assert_eq!(m.name, ModuleName::from_string("A.B"));
    assert_eq!(
        m.imports,
        vec![
            Import { qualified: false, module: ModuleName::from_string("Prelude"), alias: None },
            Import {
                qualified: false,
                module: ModuleName::from_string("Data.List"),
                alias: Some(ModuleName::from_string("L")),
            },
        ]
    );
    assert_eq!(
        m.declarations,
        vec![
            Declaration::Data,
            Declaration::Type,
            Declaration::Newtype,
            Declaration::Splice,
            Declaration::Value,
        ]
    );
}

#[test]
fn pragma_with_several_names() {
    let text = "  {-# LANGUAGE OverloadedStrings, OverloadedStrings #-}\n{-# OverloadedStrings #-}\nmodule M where\n";
    let m = parse_module(text).unwrap();
    assert_eq!(m.extensions, vec![Extension::OverloadedStrings; 3]);
}

#[test]
fn missing_header() {
    assert_eq!(error_of(parse_module("main = 1")), (0, ErrorKind::ExpectedModuleHeader));
    assert_eq!(error_of(parse_module("")), (0, ErrorKind::ExpectedModuleHeader));
}

#[test]
fn missing_where() {
    assert_eq!(error_of(parse_module("module Foo")), (10, ErrorKind::ExpectedWhere));
}

#[test]
fn lowercase_module_header() {
    assert_eq!(error_of(parse_module("module foo where")), (7, ErrorKind::ExpectedModuleName));
}

#[test]
fn unknown_extension() {
    let e = parse_module("{-# LANGUAGE Foo #-}\nmodule M where").unwrap_err();
    assert_eq!(e.position, 13);
    assert_eq!(e.kind, ErrorKind::UnknownExtension);
    assert_eq!(e.found, "Foo");
}

#[test]
fn missing_extension_name() {
    assert_eq!(
        error_of(parse_module("{-# LANGUAGE 3 #-}\nmodule M where")),
        (13, ErrorKind::ExpectedExtensionName)
    );
}

#[test]
fn unclosed_pragma() {
    assert_eq!(
        error_of(parse_module("{-# LANGUAGE OverloadedStrings")),
        (30, ErrorKind::ExpectedPragmaClose)
    );
}

#[test]
fn import_commits_after_keyword() {
    assert_eq!(
        error_of(parse_module("module M where\nimport foo")),
        (22, ErrorKind::ExpectedModuleName)
    );
    assert_eq!(
        error_of(parse_module("module M where\nimport Foo as bar")),
        (29, ErrorKind::ExpectedModuleName)
    );
}

#[test]
fn type_declaration_needs_a_name() {
    assert_eq!(
        error_of(parse_module("module M where\ndata x = 1")),
        (20, ErrorKind::ExpectedTypeName)
    );
}

#[test]
fn leftover_input() {
    assert_eq!(
        error_of(parse_module("module M where\n(garbage")),
        (15, ErrorKind::UnexpectedInput)
    );
    assert_eq!(
        error_of(parse_module("module M where\nx == 1")),
        (15, ErrorKind::UnexpectedInput)
    );
}

#[test]
fn error_description() {
    let e = parse_module_name("foo").unwrap_err();
    assert_eq!(e.expected(), "module name starting with an uppercase letter");
    assert_eq!(ParseError::new(3, ErrorKind::ExpectedWhere).expected(), "'where' after the module name");
}

#[test]
fn unicode_whitespace_is_layout() {
    assert_eq!(parse_module_name("Foo\u{A0}"), Ok((ModuleName::from_string("Foo"), "")));
    assert_eq!(parse_identifier("foo\u{3000}"), Ok((Identifier::from_string("foo"), "")));
    assert_eq!(
        parse_identifier("foo\u{2003}\u{85}bar"),
        Ok((Identifier::from_string("foo"), "bar"))
    );
    let m = parse_module("module\u{2028}Foo\u{1680}where\u{202F}").unwrap();
    assert_eq!(m.name, ModuleName::from_string("Foo"));
}

#[test]
fn small_module_shape() {
    let text = "{-# OverloadedStrings #-}\nmodule Top.Level where\nimport qualified Data.Set as S\nvalue' = 1\n";
    let m = parse_module(text).unwrap();
    assert_eq!(m.extensions, vec![Extension::OverloadedStrings]);
    assert_eq!(m.name, ModuleName::from_string("Top.Level"));
    assert_eq!(
        m.imports,
        vec![Import {
            qualified: true,
            module: ModuleName::from_string("Data.Set"),
            alias: Some(ModuleName::from_string("S")),
        }]
    );
    assert_eq!(m.declarations, vec![Declaration::Value]);
}
