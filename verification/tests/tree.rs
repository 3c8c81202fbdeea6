use lintspec::definitions::{Identifier, Visibility};
use lintspec::items::{DocComment, SolItemKind};
use lintspec::textindex::TextIndex;
use lintspec::tree::{document_from_tree, list_items, NodeKind, SolNode};

fn node(kind: NodeKind, name: Option<&str>, start: usize, end: usize) -> SolNode {
    SolNode {
        kind,
        name: name.map(|n| n.to_string()),
        start,
        end,
        name_end: 0,
        bases_end: None,
        layout_end: None,
        header_start: 0,
        header_end: 0,
        docs: vec![],
        params: vec![],
        returns: vec![],
        visibility: None,
        is_override: false,
        body: vec![],
    }
}

#[test]
fn items_listed_from_tree() {
    let pragma = node(NodeKind::Pragma, None, 0, 20);
    let mut contract = node(NodeKind::Contract, Some("A"), 21, 90);
    contract.name_end = 31;
    contract.bases_end = Some(36);
    let using = node(NodeKind::Using, None, 40, 50);
    let mut function = node(NodeKind::Function, Some("f"), 51, 80);
    function.header_start = 51;
    function.header_end = 70;
    function.visibility = Some(Visibility::External);
    function.params = vec![Identifier {
        name: Some("x".to_string()),
        span: TextIndex { utf8: 60, utf16: 0, line: 0, column: 0 }..TextIndex {
            utf8: 61,
            utf16: 0,
            line: 0,
            column: 0,
        },
    }];
    let variable = node(NodeKind::Variable, Some("v"), 81, 88);
    contract.body = vec![using, function, variable];
    let free = node(NodeKind::Struct, Some("S"), 91, 100);
    let items = list_items(&[pragma, contract, free]);
    assert_eq!(items.len(), 4);
    assert_eq!(items[0].kind, SolItemKind::Contract);
    assert_eq!((items[0].start, items[0].end), (21, 31));
    assert_eq!(items[0].other_ends, vec![36]);
    assert_eq!(items[0].parent, None);
    assert_eq!(items[1].kind, SolItemKind::Function);
    assert_eq!((items[1].start, items[1].end), (51, 70));
    assert_eq!(items[1].visibility, Visibility::External);
    assert_eq!(items[1].parent, Some(0));
    assert_eq!(items[1].params.len(), 1);
    assert_eq!(items[2].kind, SolItemKind::Variable);
    assert_eq!(items[2].visibility, Visibility::Internal);
    assert_eq!(items[2].parent, Some(0));
    assert_eq!(items[3].kind, SolItemKind::Struct);
    assert_eq!(items[3].parent, None);
}

#[test]
fn document_from_a_tree() {
    let source = "/// @notice S\nstruct S { uint a; }";
    let mut s = node(NodeKind::Struct, Some("S"), 14, 33);
    s.docs = vec![DocComment {
        text: "/// @notice S".to_string(),
        start: 0,
        end: 13,
    }];
    let doc = document_from_tree(source, &[s]).unwrap();
    let def = doc.definitions[0].as_struct().unwrap();
    assert_eq!(def.name, "S");
    assert_eq!(def.span.start.utf8, 0);
    assert_eq!(
        def.span.end,
        TextIndex {
            utf8: 33,
            utf16: 33,
            line: 1,
            column: 19
        }
    );
}
