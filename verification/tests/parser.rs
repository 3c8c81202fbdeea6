use lintspec::files::source_name;
use lintspec::textindex::offsets_on_boundaries;
use lintspec::comment::{extract_natspec, parse_comment, CommentError, Delimiter};
use lintspec::definitions::{
    Attributes, ContractDefinition, Definition, EnumDefinition, FunctionDefinition, Identifier,
    ItemType, Parent, SourceItem, StructDefinition, VariableDeclaration, Visibility,
};
use lintspec::error::Error;
use lintspec::files::is_solidity_path;
use lintspec::lint::{Diagnostic, ItemDiagnostics};
use lintspec::natspec::{NatSpecItem, NatSpecKind};
use lintspec::parser::{complete_text_ranges, gather_offsets, try_complete_text_ranges};
use lintspec::textindex::{TextIndex, TextRange};

fn at(utf8: usize) -> TextIndex {
    TextIndex {
        utf8,
        utf16: 0,
        line: 0,
        column: 0,
    }
}

fn offsets(start: usize, end: usize) -> TextRange {
    at(start)..at(end)
}

fn full(utf8: usize, utf16: usize, line: usize, column: usize) -> TextIndex {
    TextIndex {
        utf8,
        utf16,
        line,
        column,
    }
}

#[test]
fn gather_offsets_sorts_all_spans() {
    let defs = vec![
        Definition::Struct(StructDefinition {
            parent: None,
            name: "S".to_string(),
            span: offsets(0, 20),
            members: vec![Identifier {
                name: Some("a".to_string()),
                span: offsets(5, 10),
            }],
            natspec: None,
        }),
        Definition::Enumeration(EnumDefinition {
            parent: None,
            name: "E".to_string(),
            span: offsets(20, 30),
            members: vec![],
            natspec: None,
        }),
    ];
    assert_eq!(gather_offsets(&defs), vec![0, 5, 10, 20, 20, 30]);
}

#[test]
fn complete_text_ranges_fills_lines_and_columns() {
    let source = "contract A {\n    uint256 a;\n}\n";
    let mut defs = vec![
        Definition::Contract(ContractDefinition {
            name: "A".to_string(),
            span: offsets(0, 10),
            natspec: None,
        }),
        Definition::Variable(VariableDeclaration {
            parent: Some(Parent::Contract("A".to_string())),
            name: "a".to_string(),
            span: offsets(17, 27),
            natspec: None,
            attributes: Attributes::default(),
        }),
    ];
    complete_text_ranges(source, &mut defs);
    assert_eq!(
        defs[0].span(),
        Some(full(0, 0, 0, 0)..full(10, 10, 0, 10))
    );
    assert_eq!(
        defs[1].span(),
        Some(full(17, 17, 1, 4)..full(27, 27, 1, 14))
    );
}

#[test]
fn complete_text_ranges_counts_utf16() {
    let source = "// é\ncontract A {}";
    let mut defs = vec![Definition::Contract(ContractDefinition {
        name: "A".to_string(),
        span: offsets(6, 16),
        natspec: None,
    })];
    assert!(try_complete_text_ranges(source, &mut defs));
    assert_eq!(
        defs[0].span(),
        Some(full(6, 5, 1, 0)..full(16, 15, 1, 10))
    );
}

#[test]
fn try_complete_text_ranges_refuses_reversed_span() {
    let source = "contract A {}";
    let mut defs = vec![Definition::Contract(ContractDefinition {
        name: "A".to_string(),
        span: offsets(10, 5),
        natspec: None,
    })];
    assert!(!try_complete_text_ranges(source, &mut defs));
    assert_eq!(defs[0].span(), Some(offsets(10, 5)));
}

#[test]
fn natspec_error_span_is_completed() {
    let source = "/// @param\ncontract A {}";
    let mut defs = vec![Definition::NatspecParsingError(Error::NatspecParsingError {
        parent: None,
        span: offsets(0, 10),
        message: "bad".to_string(),
    })];
    complete_text_ranges(source, &mut defs);
    assert_eq!(
        defs[0].span(),
        Some(full(0, 0, 0, 0)..full(10, 10, 0, 10))
    );
}

#[test]
fn extract_natspec_combines_comments() {
    let docs = vec![
        "/// @notice Hello".to_string(),
        "/// @return x The value".to_string(),
    ];
    let rets = vec![Identifier {
        name: Some("x".to_string()),
        span: offsets(0, 1),
    }];
    let natspec = extract_natspec(&docs, &rets).unwrap();
    assert_eq!(
        natspec.items,
        vec![
            NatSpecItem {
                kind: NatSpecKind::Notice,
                comment: "Hello".to_string(),
            },
            NatSpecItem {
                kind: NatSpecKind::Return {
                    name: Some("x".to_string()),
                },
                comment: "The value".to_string(),
            },
        ]
    );
}

#[test]
fn extract_natspec_reports_first_bad_comment() {
    let docs = vec![
        "/// @notice Hello".to_string(),
        "//// not a doc-comment".to_string(),
        "/*** neither".to_string(),
    ];
    let err = extract_natspec(&docs, &[]).unwrap_err();
    assert_eq!(err, (1, CommentError::Delimiter(Delimiter::SingleLine)));
}

#[test]
fn extra_delimiter_is_rejected() {
    assert_eq!(
        parse_comment("//// text").unwrap_err(),
        CommentError::Delimiter(Delimiter::SingleLine)
    );
    assert_eq!(
        parse_comment("/*** text */").unwrap_err(),
        CommentError::Delimiter(Delimiter::Block)
    );
    assert_eq!(
        CommentError::Delimiter(Delimiter::SingleLine).message(),
        "Parsing Failure: ContextError { context: [Label(\"delimiter\"), Expected(Description(\"///\"))], cause: None }"
    );
}

#[test]
fn compact_output() {
    let item = ItemDiagnostics {
        parent: Some(Parent::Contract("Token".to_string())),
        item_type: ItemType::PublicFunction,
        name: "transfer".to_string(),
        span: full(40, 40, 2, 4)..full(60, 60, 2, 24),
        diags: vec![
            Diagnostic {
                span: full(40, 40, 2, 4)..full(60, 60, 2, 24),
                message: "@notice is missing".to_string(),
            },
            Diagnostic {
                span: full(50, 50, 2, 14)..full(52, 52, 2, 16),
                message: "@param to is missing".to_string(),
            },
        ],
    };
    assert_eq!(
        item.print_compact("src/Token.sol"),
        "src/Token.sol:3:5\nfunction Token.transfer\n  @notice is missing\n  @param to is missing\n\n"
    );
    let free = ItemDiagnostics {
        parent: None,
        item_type: ItemType::Struct,
        name: "S".to_string(),
        span: full(0, 0, 0, 0)..full(5, 5, 0, 5),
        diags: vec![],
    };
    assert_eq!(free.print_compact("a.sol"), "a.sol:1:1\nstruct S\n\n");
}

#[test]
fn text_index_location() {
    assert_eq!(full(120, 118, 9, 41).to_string(), "10:42");
    assert_eq!(TextIndex::zero().to_string(), "1:1");
}

#[test]
fn solidity_paths() {
    assert!(is_solidity_path(Some("sol")));
    assert!(is_solidity_path(None));
    assert!(!is_solidity_path(Some("rs")));
    assert!(!is_solidity_path(Some("SOL")));
}

#[test]
fn definitions_by_kind() {
    let f = FunctionDefinition {
        parent: Some(Parent::Interface("I".to_string())),
        name: "f".to_string(),
        span: offsets(3, 9),
        params: vec![],
        returns: vec![],
        natspec: None,
        attributes: Attributes {
            visibility: Visibility::External,
            is_override: false,
        },
    };
    assert_eq!(f.item_type(), ItemType::ExternalFunction);
    assert_eq!(
        SourceItem::parent(&f),
        Some(Parent::Interface("I".to_string()))
    );
    assert_eq!(SourceItem::name(&f), "f");
    let def = Definition::Function(f);
    assert!(def.as_function().is_some());
    assert!(def.as_struct().is_none());
    let same = Definition::Function(FunctionDefinition {
        parent: None,
        name: "g".to_string(),
        span: offsets(3, 20),
        params: vec![],
        returns: vec![],
        natspec: None,
        attributes: Attributes::default(),
    });
    assert!(def == same);
    let other = Definition::Function(FunctionDefinition {
        parent: None,
        name: "f".to_string(),
        span: offsets(4, 9),
        params: vec![],
        returns: vec![],
        natspec: None,
        attributes: Attributes::default(),
    });
    assert!(def != other);
    assert_eq!(def.to_function().map(|f| f.name), Some("f".to_string()));
}

#[test]
fn complete_text_ranges_span_to_end_after_unicode() {
    let source = "é a";
    let mut defs = vec![Definition::Contract(ContractDefinition {
        name: "A".to_string(),
        span: offsets(0, 4),
        natspec: None,
    })];
    complete_text_ranges(source, &mut defs);
    assert_eq!(
        defs[0].span(),
        Some(full(0, 0, 0, 0)..full(4, 3, 0, 3))
    );
}

#[test]
fn natspec_error_span_to_end_is_completed_once() {
    let mut defs = vec![Definition::NatspecParsingError(Error::NatspecParsingError {
        parent: None,
        span: offsets(0, 3),
        message: "m".to_string(),
    })];
    assert!(try_complete_text_ranges("abc", &mut defs));
    assert_eq!(defs.len(), 1);
    assert_eq!(defs[0].span(), Some(full(0, 0, 0, 0)..full(3, 3, 0, 3)));
}

#[test]
fn offsets_on_char_boundaries() {
    assert!(offsets_on_boundaries("é a", &[0, 2, 2, 4]));
    assert!(!offsets_on_boundaries("é a", &[0, 1]));
    assert!(!offsets_on_boundaries("é a", &[5]));
    assert!(offsets_on_boundaries("", &[]));
}

#[test]
fn file_names_relative_to_root() {
    assert_eq!(source_name("/home/u/proj/src/A.sol", "/home/u/proj"), "src/A.sol");
    assert_eq!(source_name("/other/A.sol", "/home/u/proj"), "/other/A.sol");
    assert_eq!(source_name("/home/u/projects/A.sol", "/home/u/proj"), "/home/u/projects/A.sol");
}
