use lintspec::items::document_from_items;
use lintspec::comment::{CommentError, Delimiter};
use lintspec::config::WithParamsRules;
use lintspec::lint::ValidationOptions;
use lintspec::definitions::{Definition, Identifier, Parent, Visibility};
use lintspec::error::Error;
use lintspec::items::{extract_definitions, DocComment, SolItem, SolItemKind};
use lintspec::natspec::{NatSpecItem, NatSpecKind};
use lintspec::textindex::{TextIndex, TextRange};

fn at(utf8: usize) -> TextIndex {
    TextIndex {
        utf8,
        utf16: 0,
        line: 0,
        column: 0,
    }
}

fn range(start: usize, end: usize) -> TextRange {
    at(start)..at(end)
}

fn item(kind: SolItemKind, name: Option<&str>, start: usize, end: usize) -> SolItem {
    SolItem {
        kind,
        name: name.map(|n| n.to_string()),
        start,
        end,
        other_ends: vec![],
        docs: vec![],
        params: vec![],
        returns: vec![],
        visibility: Visibility::Internal,
        is_override: false,
        parent: Some(0),
    }
}

#[test]
fn definitions_from_listed_items() {
    let mut contract = item(SolItemKind::Contract, Some("A"), 15, 25);
    contract.parent = None;
    contract.other_ends = vec![30, 27];
    contract.docs = vec![DocComment {
        text: "/// @title T".to_string(),
        start: 0,
        end: 12,
    }];
    let mut function = item(SolItemKind::Function, None, 40, 60);
    function.visibility = Visibility::External;
    function.params = vec![Identifier {
        name: Some("x".to_string()),
        span: range(45, 46),
    }];
    function.returns = vec![Identifier {
        name: None,
        span: range(55, 59),
    }];
    let receive = item(SolItemKind::Receive, None, 61, 65);
    let mut structure = item(SolItemKind::Struct, Some("S"), 66, 75);
    structure.params = vec![Identifier {
        name: None,
        span: range(70, 71),
    }];
    let mut event = item(SolItemKind::Event, Some("E"), 90, 99);
    event.docs = vec![DocComment {
        text: "//// bad".to_string(),
        start: 80,
        end: 88,
    }];
    let items = vec![contract, function, receive, structure, event];
    let defs = extract_definitions(&items);
    assert_eq!(defs.len(), 4);

    let c = defs[0].as_contract().unwrap();
    assert_eq!(c.name, "A");
    assert_eq!(c.span, range(0, 30));
    assert_eq!(
        c.natspec.as_ref().unwrap().items,
        vec![NatSpecItem {
            kind: NatSpecKind::Title,
            comment: "T".to_string(),
        }]
    );

    let f = defs[1].as_function().unwrap();
    assert_eq!(f.name, "function");
    assert_eq!(f.parent, Some(Parent::Contract("A".to_string())));
    assert_eq!(f.span, range(40, 60));
    assert!(f.natspec.is_none());
    assert_eq!(f.attributes.visibility, Visibility::External);
    assert_eq!(f.params.len(), 1);
    assert_eq!(f.returns[0].name, None);

    let s = defs[2].as_struct().unwrap();
    assert_eq!(s.members[0].name, Some("member".to_string()));
    assert_eq!(s.members[0].span, range(70, 71));

    match &defs[3] {
        Definition::NatspecParsingError(Error::NatspecParsingError {
            parent,
            span,
            message,
        }) => {
            assert_eq!(parent, &Some(Parent::Contract("A".to_string())));
            assert_eq!(span, &range(80, 88));
            assert_eq!(
                message,
                &CommentError::Delimiter(Delimiter::SingleLine).message()
            );
        }
        other => panic!("unexpected definition {other:?}"),
    }
}

#[test]
fn default_names_and_parents() {
    let mut library = item(SolItemKind::Library, Some("L"), 0, 9);
    library.parent = None;
    let modifier = item(SolItemKind::Modifier, None, 12, 20);
    let variable = item(SolItemKind::Variable, None, 22, 30);
    let mut free = item(SolItemKind::Function, Some("f"), 40, 50);
    free.parent = None;
    let defs = extract_definitions(&[library, modifier, variable, free]);
    assert_eq!(defs.len(), 4);
    let m = defs[1].as_modifier().unwrap();
    assert_eq!(m.name, "modifier");
    assert_eq!(m.parent, Some(Parent::Library("L".to_string())));
    let v = defs[2].as_variable().unwrap();
    assert_eq!(v.name, "variable");
    let f = defs[3].as_function().unwrap();
    assert_eq!(f.name, "f");
    assert_eq!(f.parent, None);
}

fn documented(kind: SolItemKind, name: &str, docs: &[&str], start: usize, end: usize) -> SolItem {
    let mut it = item(kind, Some(name), start, end);
    it.parent = None;
    let mut offset = 0;
    it.docs = docs
        .iter()
        .map(|text| {
            let doc = DocComment {
                text: text.to_string(),
                start: offset,
                end: offset + text.len(),
            };
            offset += text.len() + 1;
            doc
        })
        .collect();
    it
}

fn struct_options() -> ValidationOptions {
    let mut options = ValidationOptions::default();
    options.inheritdoc = false;
    options.structs = WithParamsRules::required();
    options
}

#[test]
fn test_struct_missing_space() {
    let mut it = documented(
        SolItemKind::Struct,
        "Test",
        &["/// @notice A struct", "/// @param fooThe param"],
        45,
        90,
    );
    it.params = vec![Identifier {
        name: Some("foo".to_string()),
        span: range(70, 82),
    }];
    let defs = extract_definitions(&[it]);
    let res = defs[0].validate(&struct_options());
    assert_eq!(res.diags.len(), 2);
    assert_eq!(res.diags[0].message, "extra @param fooThe");
    assert_eq!(res.diags[1].message, "@param foo is missing");
}

#[test]
fn test_struct_extra_param() {
    let mut it = documented(
        SolItemKind::Struct,
        "Test",
        &[
            "/// @notice A struct",
            "/// @param foo The param",
            "/// @param bar Some other param",
        ],
        80,
        120,
    );
    it.params = vec![Identifier {
        name: Some("foo".to_string()),
        span: range(100, 112),
    }];
    let defs = extract_definitions(&[it]);
    let res = defs[0].validate(&struct_options());
    assert_eq!(res.diags.len(), 1);
    assert_eq!(res.diags[0].message, "extra @param bar");
}

#[test]
fn test_function_duplicate_unnamed_return() {
    let mut it = documented(
        SolItemKind::Function,
        "foo",
        &[
            "/// @notice A function",
            "/// @return The output",
            "/// @return The output again",
        ],
        75,
        120,
    );
    it.visibility = Visibility::Public;
    it.returns = vec![Identifier {
        name: None,
        span: range(110, 117),
    }];
    let defs = extract_definitions(&[it]);
    let mut options = ValidationOptions::default();
    options.inheritdoc = false;
    let res = defs[0].validate(&options);
    assert_eq!(res.diags.len(), 1);
    assert_eq!(res.diags[0].message, "too many unnamed returns");
}

#[test]
fn document_from_listed_items() {
    let source = "/// @notice A\ncontract A {}";
    let mut contract = item(SolItemKind::Contract, Some("A"), 14, 24);
    contract.parent = None;
    contract.docs = vec![DocComment {
        text: "/// @notice A".to_string(),
        start: 0,
        end: 13,
    }];
    let doc = document_from_items(source, &[contract]).unwrap();
    assert_eq!(doc.definitions.len(), 1);
    let span = doc.definitions[0].span().unwrap();
    assert_eq!(
        span.end,
        TextIndex {
            utf8: 24,
            utf16: 24,
            line: 1,
            column: 10
        }
    );
    let mut off_boundary = item(SolItemKind::Contract, Some("A"), 1, 3);
    off_boundary.parent = None;
    assert!(document_from_items("é a", &[off_boundary]).is_none());
}
