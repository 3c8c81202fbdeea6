use lintspec::definitions::{Definition, Parent};
use lintspec::error::Error;
use lintspec::lint::{lint_document, ValidationOptions};
use lintspec::solidity::parse_document;
use lintspec::textindex::TextIndex;

const SOURCE: &str = "// SPDX-License-Identifier: MIT
pragma solidity ^0.8.0;

/// @title A test
contract Test {
    /// @param a The first
    event Foobar(uint256 a, uint256 b);

    /// @notice Adds
    function add(uint256 x) external returns (uint256 sum) {
        return x + 1;
    }
}
";

#[test]
fn parsed_text_gives_its_definitions() {
    let doc = parse_document("Test.sol", SOURCE).unwrap();
    assert_eq!(doc.definitions.len(), 3);
    assert!(matches!(doc.definitions[0], Definition::Contract(_)));
    let event = doc.definitions[1].as_event().unwrap();
    assert_eq!(event.name, "Foobar");
    assert_eq!(event.params.len(), 2);
    assert_eq!(event.params[0].name.as_deref(), Some("a"));
    let function = doc.definitions[2].as_function().unwrap();
    assert_eq!(function.name, "add");
    assert_eq!(function.params.len(), 1);
    assert_eq!(function.returns.len(), 1);
    assert_eq!(function.returns[0].name.as_deref(), Some("sum"));
    // the function's span starts at its doc-comment, on line 9 (counted from 0), column 4
    assert_eq!(function.span.start.line, 8);
    assert_eq!(function.span.start.column, 4);
    // the name of the param spans `x`, with its line and column filled in
    let x = &function.params[0].span;
    assert_eq!(x.start.line, 9);
    assert_eq!(&SOURCE[x.start.utf8..x.end.utf8], "x");
}

#[test]
fn parsed_text_is_linted() {
    let doc = parse_document("Test.sol", SOURCE).unwrap();
    let options = ValidationOptions { inheritdoc: false, ..ValidationOptions::default() };
    let diags = lint_document("Test.sol".to_string(), doc, &options).unwrap();
    let event = diags.items.iter().find(|item| item.name == "Foobar").unwrap();
    let messages: Vec<_> = event.diags.iter().map(|d| d.message.as_str()).collect();
    assert_eq!(messages, vec!["@notice is missing", "@param b is missing"]);
    let function = diags.items.iter().find(|item| item.name == "add").unwrap();
    let messages: Vec<_> = function.diags.iter().map(|d| d.message.as_str()).collect();
    assert_eq!(messages, vec!["@param x is missing", "@return sum is missing"]);
}

#[test]
fn text_that_does_not_parse_is_a_parsing_error() {
    let err = parse_document("Broken.sol", "contract {").unwrap_err();
    match err {
        Error::ParsingError { path, loc, message } => {
            assert_eq!(path, "Broken.sol");
            assert_eq!(loc, TextIndex::zero());
            assert!(!message.is_empty());
        }
        other => panic!("unexpected error {other:?}"),
    }
}

#[test]
fn unicode_before_an_item_is_counted_in_its_span() {
    let source = "/// @notice Ünïcödé\nstruct S { uint256 a; }\n";
    let doc = parse_document("S.sol", source).unwrap();
    let def = doc.definitions[0].as_struct().unwrap();
    assert_eq!(def.name, "S");
    assert_eq!(def.span.start.utf8, 0);
    assert_eq!(def.span.end.utf8, source.len() - 1);
    assert_eq!(def.span.end.line, 1);
    assert_eq!(def.span.end.column, 23);
    assert_eq!(def.span.end.utf16, source.chars().count() - 1);
}

#[test]
fn empty_text_gives_no_definitions() {
    let doc = parse_document("Empty.sol", "").unwrap();
    assert!(doc.definitions.is_empty());
}

#[test]
fn contract_span_ends_at_its_last_base_and_members_get_it_as_parent() {
    let source = "/// @title T\ncontract A is B {\n    enum E { X, Y }\n    function f(uint256) internal {}\n}\n";
    let doc = parse_document("A.sol", source).unwrap();
    assert_eq!(doc.definitions.len(), 3);
    let contract = match &doc.definitions[0] {
        Definition::Contract(c) => c,
        other => panic!("unexpected definition {other:?}"),
    };
    assert_eq!(contract.name, "A");
    assert_eq!(contract.span.start.utf8, 0);
    assert_eq!(contract.span.end.utf8, 28);
    assert_eq!(&source[..contract.span.end.utf8], "/// @title T\ncontract A is B");
    let enumeration = doc.definitions[1].as_enum().unwrap();
    assert_eq!(enumeration.parent, Some(Parent::Contract("A".to_string())));
    let names: Vec<_> = enumeration.members.iter().map(|m| m.name.clone().unwrap()).collect();
    assert_eq!(names, vec!["X", "Y"]);
    // an unnamed param spans its whole definition
    let function = doc.definitions[2].as_function().unwrap();
    assert_eq!(function.params[0].name, None);
    let p = &function.params[0].span;
    assert_eq!(&source[p.start.utf8..p.end.utf8], "uint256");
}
