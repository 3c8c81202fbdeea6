use lintspec::config::{ContractRules, Req, WithParamsRules};
use lintspec::definitions::{
    ContractDefinition, Definition, EnumDefinition, ErrorDefinition, Identifier, InterfaceDefinition,
    ModifierDefinition, StructDefinition, VariableDeclaration, Visibility,
};
use lintspec::items::{extract_definitions, DocComment, SolItem, SolItemKind};
use lintspec::lint::{ItemDiagnostics, Validate, ValidationOptions};
use lintspec::textindex::TextIndex;

fn at(utf8: usize) -> TextIndex {
    TextIndex {
        utf8,
        utf16: 0,
        line: 0,
        column: 0,
    }
}

fn blank(kind: SolItemKind, name: &str, start: usize, end: usize, parent: Option<usize>) -> SolItem {
    SolItem {
        kind,
        name: Some(name.to_string()),
        start,
        end,
        other_ends: vec![],
        docs: vec![],
        params: vec![],
        returns: vec![],
        visibility: Visibility::Internal,
        is_override: false,
        parent,
    }
}

/// The doc-comments between `from` and `to`: each `///` line, or one `/** */` block
fn doc_comments(contents: &str, from: usize, to: usize) -> Vec<DocComment> {
    let region = &contents[from..to];
    if let Some(open) = region.find("/**") {
        let close = region.find("*/").unwrap() + 2;
        return vec![DocComment {
            text: region[open..close].to_string(),
            start: from + open,
            end: from + close,
        }];
    }
    let mut docs = Vec::new();
    let mut offset = from;
    for line in region.split_inclusive('\n') {
        if let Some(pos) = line.find("///") {
            let text = line[pos..].trim_end();
            docs.push(DocComment {
                text: text.to_string(),
                start: offset + pos,
                end: offset + pos + text.len(),
            });
        }
        offset += line.len();
    }
    docs
}

/// The items of a small source holding an optional `contract Test` and one item declared with `keyword`,
/// whose members are `members`
fn listed(contents: &str, kind: SolItemKind, keyword: &str, members: &[&str]) -> Vec<SolItem> {
    let mut items = Vec::new();
    let mut from = 0;
    let mut parent = None;
    if contents.trim_start().starts_with("contract") {
        let brace = contents.find('{').unwrap();
        items.push(blank(SolItemKind::Contract, "Test", 0, brace, None));
        parent = Some(0);
        from = brace + 1;
    }
    let start = contents.find(keyword).unwrap();
    let closing = if kind == SolItemKind::Error { ';' } else { '}' };
    let end = contents[start..].find(closing).unwrap() + start + 1;
    let mut it = blank(kind, "Foobar", start, end, parent);
    it.docs = doc_comments(contents, from, start);
    let mut cursor = start + keyword.len();
    it.params = members
        .iter()
        .map(|m| {
            let pos = contents[cursor..].find(m).unwrap() + cursor;
            cursor = pos + m.len();
            Identifier {
                name: Some(m.to_string()),
                span: at(pos)..at(pos + m.len()),
            }
        })
        .collect();
    items.push(it);
    items
}

fn structure(contents: &str, members: &[&str]) -> StructDefinition {
    extract_definitions(&listed(contents, SolItemKind::Struct, "struct Foobar", members))
        .into_iter()
        .find_map(Definition::to_struct)
        .unwrap()
}

fn enumeration(contents: &str, members: &[&str]) -> EnumDefinition {
    extract_definitions(&listed(contents, SolItemKind::Enum, "enum Foobar", members))
        .into_iter()
        .find_map(Definition::to_enum)
        .unwrap()
}

fn error(contents: &str, members: &[&str]) -> ErrorDefinition {
    extract_definitions(&listed(contents, SolItemKind::Error, "error Foobar", members))
        .into_iter()
        .find_map(Definition::to_error)
        .unwrap()
}

fn modifier(contents: &str, members: &[&str]) -> ModifierDefinition {
    let mut items = listed(contents, SolItemKind::Modifier, "modifier foo", members);
    let last = items.len() - 1;
    items[last].is_override = contents.contains("override");
    extract_definitions(&items)
        .into_iter()
        .find_map(Definition::to_modifier)
        .unwrap()
}

fn inheritdoc_override() -> ValidationOptions {
    let mut options = ValidationOptions::default();
    options.inheritdoc_override = true;
    options
}

/// A contract or interface declared with `keyword` after its doc-comments
fn container(contents: &str, kind: SolItemKind, keyword: &str) -> Vec<SolItem> {
    let start = contents.find(keyword).unwrap();
    let mut it = blank(kind, "Test", start, contents.find('{').unwrap(), None);
    it.docs = doc_comments(contents, 0, start);
    vec![it]
}

fn contract(contents: &str) -> ContractDefinition {
    extract_definitions(&container(contents, SolItemKind::Contract, "contract Test"))
        .into_iter()
        .find_map(Definition::to_contract)
        .unwrap()
}

fn interface(contents: &str) -> InterfaceDefinition {
    extract_definitions(&container(contents, SolItemKind::Interface, "interface Test"))
        .into_iter()
        .find_map(Definition::to_interface)
        .unwrap()
}

fn variable(contents: &str, keyword: &str) -> VariableDeclaration {
    let mut items = listed(contents, SolItemKind::Variable, keyword, &[]);
    let last = items.len() - 1;
    items[last].visibility = if keyword.contains("public") {
        Visibility::Public
    } else {
        Visibility::Internal
    };
    extract_definitions(&items)
        .into_iter()
        .find_map(Definition::to_variable)
        .unwrap()
}

fn all_contract_tags() -> ValidationOptions {
    let mut options = no_inheritdoc();
    let rules = ContractRules {
        title: Req::Required,
        author: Req::Required,
        notice: Req::Required,
        dev: Req::Ignored,
    };
    options.contracts = rules;
    options.interfaces = rules;
    options
}

fn title_only() -> ValidationOptions {
    let mut options = ValidationOptions::default();
    let rules = ContractRules {
        title: Req::Required,
        author: Req::Ignored,
        notice: Req::Ignored,
        dev: Req::Ignored,
    };
    options.contracts = rules;
    options.interfaces = rules;
    options
}

fn no_inheritdoc() -> ValidationOptions {
    let mut options = ValidationOptions::default();
    options.inheritdoc = false;
    options
}

fn struct_options() -> ValidationOptions {
    let mut options = no_inheritdoc();
    options.structs = WithParamsRules::required();
    options
}

fn enum_options() -> ValidationOptions {
    let mut options = no_inheritdoc();
    options.enums = WithParamsRules::required();
    options
}

fn messages(res: &ItemDiagnostics) -> Vec<String> {
    res.diags.iter().map(|d| d.message.clone()).collect()
}

#[test]
fn structure_test_struct() {
    let contents = "contract Test {
            /// @notice A struct
            struct Foobar {
                uint256 a;
                bool b;
            }
        }";
    let res = structure(contents, &["a", "b"]).validate(&no_inheritdoc());
    assert!(res.diags.is_empty(), "{:#?}", res.diags);
}

#[test]
fn structure_test_struct_missing() {
    let contents = "contract Test {
            struct Foobar {
                uint256 a;
                bool b;
            }
        }";
    let res = structure(contents, &["a", "b"]).validate(&struct_options());
    assert_eq!(
        messages(&res),
        vec!["@notice is missing", "@param a is missing", "@param b is missing"]
    );
}

#[test]
fn structure_test_struct_params() {
    let contents = "contract Test {
            /// @notice A struct
            /// @param a The first
            /// @param b The second
            struct Foobar {
                uint256 a;
                bool b;
            }
        }";
    let res = structure(contents, &["a", "b"]).validate(&struct_options());
    assert!(res.diags.is_empty(), "{:#?}", res.diags);
}

#[test]
fn structure_test_struct_only_notice() {
    let contents = "contract Test {
            /// @notice A struct
            struct Foobar {
                uint256 a;
                bool b;
            }
        }";
    let res = structure(contents, &["a", "b"]).validate(&struct_options());
    assert_eq!(messages(&res), vec!["@param a is missing", "@param b is missing"]);
}

#[test]
fn structure_test_struct_one_missing() {
    let contents = "contract Test {
            /// @notice A struct
            /// @param a The first
            struct Foobar {
                uint256 a;
                bool b;
            }
        }";
    let res = structure(contents, &["a", "b"]).validate(&struct_options());
    assert_eq!(messages(&res), vec!["@param b is missing"]);
}

#[test]
fn structure_test_struct_multiline() {
    let contents = "contract Test {
            /**
             * @notice A struct
             * @param a The first
             * @param b The second
             */
            struct Foobar {
                uint256 a;
                bool b;
            }
        }";
    let res = structure(contents, &["a", "b"]).validate(&struct_options());
    assert!(res.diags.is_empty(), "{:#?}", res.diags);
}

#[test]
fn structure_test_struct_duplicate() {
    let contents = "contract Test {
            /// @notice A struct
            /// @param a The first
            /// @param a The first twice
            struct Foobar {
                uint256 a;
            }
        }";
    let res = structure(contents, &["a"]).validate(&struct_options());
    assert_eq!(messages(&res), vec!["@param a is present more than once"]);
}

#[test]
fn structure_test_struct_inheritdoc() {
    let contents = "contract Test {
            /// @inheritdoc ISomething
            struct Foobar {
                uint256 a;
            }
        }";
    let mut options = ValidationOptions::default();
    options.inheritdoc = true;
    options.structs = WithParamsRules::required();
    let res = structure(contents, &["a"]).validate(&options);
    assert_eq!(messages(&res), vec!["@notice is missing", "@param a is missing"]);
}

#[test]
fn structure_test_struct_no_contract() {
    let contents = "
            /// @notice A struct
            /// @param a The first
            /// @param b The second
            struct Foobar {
                uint256 a;
                bool b;
            }";
    let res = structure(contents, &["a", "b"]).validate(&struct_options());
    assert!(res.diags.is_empty(), "{:#?}", res.diags);
}

#[test]
fn structure_test_struct_no_contract_missing() {
    let contents = "struct Foobar {
                uint256 a;
                bool b;
            }";
    let res = structure(contents, &["a", "b"]).validate(&struct_options());
    assert_eq!(
        messages(&res),
        vec!["@notice is missing", "@param a is missing", "@param b is missing"]
    );
}

#[test]
fn structure_test_struct_no_contract_one_missing() {
    let contents = "
            /// @notice A struct
            /// @param a The first
            struct Foobar {
                uint256 a;
                bool b;
            }";
    let res = structure(contents, &["a", "b"]).validate(&struct_options());
    assert_eq!(messages(&res), vec!["@param b is missing"]);
}

#[test]
fn enumeration_test_enum() {
    let contents = "contract Test {
            /// @notice The enum
            enum Foobar {
                First,
                Second
            }
        }";
    let res = enumeration(contents, &["First", "Second"]).validate(&no_inheritdoc());
    assert!(res.diags.is_empty(), "{:#?}", res.diags);
}

#[test]
fn enumeration_test_enum_missing() {
    let contents = "contract Test {
            enum Foobar {
                First,
                Second
            }
        }";
    let res = enumeration(contents, &["First", "Second"]).validate(&enum_options());
    assert_eq!(
        messages(&res),
        vec!["@notice is missing", "@param First is missing", "@param Second is missing"]
    );
}

#[test]
fn enumeration_test_enum_params() {
    let contents = "contract Test {
            /// @notice The notice
            /// @param First The first
            /// @param Second The second
            enum Foobar {
                First,
                Second
            }
        }";
    let res = enumeration(contents, &["First", "Second"]).validate(&enum_options());
    assert!(res.diags.is_empty(), "{:#?}", res.diags);
}

#[test]
fn enumeration_test_enum_only_notice() {
    let contents = "contract Test {
            /// @notice An enum
            enum Foobar {
                First,
                Second
            }
        }";
    let res = enumeration(contents, &["First", "Second"]).validate(&enum_options());
    assert_eq!(
        messages(&res),
        vec!["@param First is missing", "@param Second is missing"]
    );
}

#[test]
fn enumeration_test_enum_one_missing() {
    let contents = "contract Test {
            /// @notice An enum
            /// @param First The first
            enum Foobar {
                First,
                Second
            }
        }";
    let res = enumeration(contents, &["First", "Second"]).validate(&enum_options());
    assert_eq!(messages(&res), vec!["@param Second is missing"]);
}

#[test]
fn enumeration_test_enum_multiline() {
    let contents = "contract Test {
            /**
             * @notice The enum
             * @param First The first
             * @param Second The second
             */
            enum Foobar {
                First,
                Second
            }
        }";
    let res = enumeration(contents, &["First", "Second"]).validate(&enum_options());
    assert!(res.diags.is_empty(), "{:#?}", res.diags);
}

#[test]
fn enumeration_test_enum_duplicate() {
    let contents = "contract Test {
            /// @notice The enum
            /// @param First The first
            /// @param First The first twice
            enum Foobar {
                First
            }
        }";
    let res = enumeration(contents, &["First"]).validate(&enum_options());
    assert_eq!(messages(&res), vec!["@param First is present more than once"]);
}

#[test]
fn enumeration_test_enum_inheritdoc() {
    let contents = "contract Test {
            /// @inheritdoc Something
            enum Foobar {
                First
            }
        }";
    let res = enumeration(contents, &["First"]).validate(&ValidationOptions::default());
    assert_eq!(messages(&res), vec!["@notice is missing"]);
}

#[test]
fn enumeration_test_enum_enforce() {
    let mut options = ValidationOptions::default();
    options.enums = WithParamsRules {
        notice: Req::Required,
        dev: Req::default(),
        param: Req::default(),
    };
    let contents = "contract Test {
            enum Foobar {
                First
            }
        }";
    let res = enumeration(contents, &["First"]).validate(&options);
    assert_eq!(messages(&res), vec!["@notice is missing"]);
    let contents = "contract Test {
            /// @notice Some notice
            enum Foobar {
                First
            }
        }";
    let res = enumeration(contents, &["First"]).validate(&options);
    assert!(res.diags.is_empty(), "{:#?}", res.diags);
}

#[test]
fn enumeration_test_enum_no_contract() {
    let contents = "
            /// @notice An enum
            /// @param First The first
            /// @param Second The second
            enum Foobar {
                First,
                Second
            }";
    let res = enumeration(contents, &["First", "Second"]).validate(&enum_options());
    assert!(res.diags.is_empty(), "{:#?}", res.diags);
}

#[test]
fn enumeration_test_enum_no_contract_missing() {
    let contents = "enum Foobar {
                First,
                Second
            }";
    let res = enumeration(contents, &["First", "Second"]).validate(&enum_options());
    assert_eq!(
        messages(&res),
        vec!["@notice is missing", "@param First is missing", "@param Second is missing"]
    );
}

#[test]
fn enumeration_test_enum_no_contract_one_missing() {
    let contents = "
            /// @notice The enum
            /// @param First The first
            enum Foobar {
                First,
                Second
            }";
    let res = enumeration(contents, &["First", "Second"]).validate(&enum_options());
    assert_eq!(messages(&res), vec!["@param Second is missing"]);
}

#[test]
fn error_test_error() {
    let contents = "contract Test {
            /// @notice An error
            /// @param a The first
            /// @param b The second
            error Foobar(uint256 a, uint256 b);
        }";
    let res = error(contents, &["a", "b"]).validate(&no_inheritdoc());
    assert!(res.diags.is_empty(), "{:#?}", res.diags);
}

#[test]
fn error_test_error_no_natspec() {
    let contents = "contract Test {
            error Foobar(uint256 a, uint256 b);
        }";
    let res = error(contents, &["a", "b"]).validate(&no_inheritdoc());
    assert_eq!(
        messages(&res),
        vec!["@notice is missing", "@param a is missing", "@param b is missing"]
    );
}

#[test]
fn error_test_error_only_notice() {
    let contents = "contract Test {
            /// @notice An error
            error Foobar(uint256 a, uint256 b);
        }";
    let res = error(contents, &["a", "b"]).validate(&no_inheritdoc());
    assert_eq!(messages(&res), vec!["@param a is missing", "@param b is missing"]);
}

#[test]
fn error_test_error_one_missing() {
    let contents = "contract Test {
            /// @notice An error
            /// @param a The first
            error Foobar(uint256 a, uint256 b);
        }";
    let res = error(contents, &["a", "b"]).validate(&no_inheritdoc());
    assert_eq!(messages(&res), vec!["@param b is missing"]);
}

#[test]
fn error_test_error_multiline() {
    let contents = "contract Test {
            /**
             * @notice An error
             * @param a The first
             * @param b The second
             */
            error Foobar(uint256 a, uint256 b);
        }";
    let res = error(contents, &["a", "b"]).validate(&no_inheritdoc());
    assert!(res.diags.is_empty(), "{:#?}", res.diags);
}

#[test]
fn error_test_error_duplicate() {
    let contents = "contract Test {
            /// @notice An error
            /// @param a The first
            /// @param a The first again
            error Foobar(uint256 a);
        }";
    let res = error(contents, &["a"]).validate(&no_inheritdoc());
    assert_eq!(messages(&res), vec!["@param a is present more than once"]);
}

#[test]
fn error_test_error_no_params() {
    let contents = "contract Test {
            error Foobar();
        }";
    let res = error(contents, &[]).validate(&no_inheritdoc());
    assert_eq!(messages(&res), vec!["@notice is missing"]);
}

#[test]
fn error_test_error_inheritdoc() {
    let contents = "contract Test {
            /// @inheritdoc ITest
            error Foobar(uint256 a);
        }";
    let res = error(contents, &["a"]).validate(&ValidationOptions::default());
    assert_eq!(messages(&res), vec!["@notice is missing", "@param a is missing"]);
}

#[test]
fn error_test_error_no_contract() {
    let contents = "
            /// @notice An error
            /// @param a The first
            /// @param b The second
            error Foobar(uint256 a, uint256 b);
            ";
    let res = error(contents, &["a", "b"]).validate(&no_inheritdoc());
    assert!(res.diags.is_empty(), "{:#?}", res.diags);
}

#[test]
fn error_test_error_no_contract_missing() {
    let contents = "error Foobar(uint256 a, uint256 b);";
    let res = error(contents, &["a", "b"]).validate(&no_inheritdoc());
    assert_eq!(
        messages(&res),
        vec!["@notice is missing", "@param a is missing", "@param b is missing"]
    );
}

#[test]
fn test_error_extra() {
    let contents = "
            /// @notice An error
            /// @param a A param
            error Foobar();
            ";
    let res = error(contents, &[]).validate(&no_inheritdoc());
    assert_eq!(messages(&res), vec!["extra @param a"]);
}

#[test]
fn modifier_test_modifier() {
    let contents = "contract Test {
            /// @notice A modifier
            /// @param param1 Test
            /// @param param2 Test2
            modifier foo(uint256 param1, bytes calldata param2) { _; }
        }";
    let res = modifier(contents, &["param1", "param2"]).validate(&no_inheritdoc());
    assert!(res.diags.is_empty(), "{:#?}", res.diags);
}

#[test]
fn modifier_test_modifier_no_natspec() {
    let contents = "contract Test {
            modifier foo(uint256 param1, bytes calldata param2) { _; }
        }";
    let res = modifier(contents, &["param1", "param2"]).validate(&no_inheritdoc());
    assert_eq!(messages(&res), vec!["@notice is missing", "@param param1 is missing", "@param param2 is missing"]);
}

#[test]
fn modifier_test_modifier_only_notice() {
    let contents = "contract Test {
            /// @notice The modifier
            modifier foo(uint256 param1, bytes calldata param2) { _; }
        }";
    let res = modifier(contents, &["param1", "param2"]).validate(&no_inheritdoc());
    assert_eq!(messages(&res), vec!["@param param1 is missing", "@param param2 is missing"]);
}

#[test]
fn modifier_test_modifier_one_missing() {
    let contents = "contract Test {
            /// @notice A modifier
            /// @param param1 The first
            modifier foo(uint256 param1, bytes calldata param2) { _; }
        }";
    let res = modifier(contents, &["param1", "param2"]).validate(&no_inheritdoc());
    assert_eq!(messages(&res), vec!["@param param2 is missing"]);
}

#[test]
fn modifier_test_modifier_multiline() {
    let contents = "contract Test {
            /**
             * @notice A modifier
             * @param param1 Test
             * @param param2 Test2
             */
            modifier foo(uint256 param1, bytes calldata param2) { _; }
        }";
    let res = modifier(contents, &["param1", "param2"]).validate(&no_inheritdoc());
    assert!(res.diags.is_empty(), "{:#?}", res.diags);
}

#[test]
fn modifier_test_modifier_duplicate() {
    let contents = "contract Test {
            /// @notice A modifier
            /// @param param1 The first
            /// @param param1 The first again
            modifier foo(uint256 param1) { _; }
        }";
    let res = modifier(contents, &["param1"]).validate(&no_inheritdoc());
    assert_eq!(messages(&res), vec!["@param param1 is present more than once"]);
}

#[test]
fn modifier_test_modifier_no_params() {
    let contents = "contract Test {
            /// @notice A modifier
            modifier foo()  { _; }
        }";
    let res = modifier(contents, &[]).validate(&no_inheritdoc());
    assert!(res.diags.is_empty(), "{:#?}", res.diags);
}

#[test]
fn modifier_test_modifier_no_params_no_paren() {
    let contents = "contract Test {
            /// @notice A modifier
            modifier foo { _; }
        }";
    let res = modifier(contents, &[]).validate(&no_inheritdoc());
    assert!(res.diags.is_empty(), "{:#?}", res.diags);
}

#[test]
fn modifier_test_modifier_inheritdoc() {
    let contents = "contract Test is ITest {
            /// @inheritdoc ITest
            modifier foo() override (ITest) { _; }
        }";
    let res = modifier(contents, &[]).validate(&inheritdoc_override());
    assert!(res.diags.is_empty(), "{:#?}", res.diags);
}

#[test]
fn modifier_test_modifier_inheritdoc_missing() {
    let contents = "contract Test is ITest {
            /// @notice Test
            modifier foo() override (ITest) { _; }
        }";
    let res = modifier(contents, &[]).validate(&inheritdoc_override());
    assert_eq!(messages(&res), vec!["@inheritdoc is missing"]);
}

#[test]
fn modifier_test_requires_inheritdoc() {
    let options = inheritdoc_override();
    let contents = "contract Test is ITest {
            modifier a() { _; }
        }";
    let res = modifier(contents.replace("modifier a", "modifier foo").as_str(), &[]);
    assert!(!res.requires_inheritdoc(&options));
    assert!(!res.requires_inheritdoc(&ValidationOptions::default()));
    let contents = "contract Test is ITest {
            modifier e() override (ITest) { _; }
        }";
    let res = modifier(contents.replace("modifier e", "modifier foo").as_str(), &[]);
    assert!(res.requires_inheritdoc(&options));
    assert!(!res.requires_inheritdoc(&ValidationOptions::default()));
}

#[test]
fn contract_test_contract() {
    let contents = "/// @title Contract
        /// @author Me
        /// @notice This is a contract
        contract Test {}";
    let res = contract(contents).validate(&all_contract_tags());
    assert!(res.diags.is_empty(), "{:#?}", res.diags);
}

#[test]
fn test_contract_no_natspec() {
    let res = contract("contract Test {}").validate(&all_contract_tags());
    assert_eq!(
        messages(&res),
        vec!["@title is missing", "@author is missing", "@notice is missing"]
    );
}

#[test]
fn test_contract_multiline() {
    let contents = "/**
         * @title Contract
         * @author Me
         * @notice This is a contract
         */
        contract Test {}";
    let res = contract(contents).validate(&all_contract_tags());
    assert!(res.diags.is_empty(), "{:#?}", res.diags);
}

#[test]
fn test_contract_inheritdoc() {
    let contents = "/// @inheritdoc ITest
        contract Test is Foo {}";
    let res = contract(contents).validate(&title_only());
    assert_eq!(messages(&res), vec!["@title is missing"]);
}

#[test]
fn interface_test_interface() {
    let contents = "/// @title Interface
        /// @author Me
        /// @notice This is an interface
        interface Test {}";
    let res = interface(contents).validate(&all_contract_tags());
    assert!(res.diags.is_empty(), "{:#?}", res.diags);
}

#[test]
fn interface_test_interface_no_natspec() {
    let res = interface("interface Test {}").validate(&all_contract_tags());
    assert_eq!(
        messages(&res),
        vec!["@title is missing", "@author is missing", "@notice is missing"]
    );
}

#[test]
fn interface_test_interface_multiline() {
    let contents = "/**
         * @title Interface
         * @author Me
         * @notice This is an interface
         */
        interface Test {}";
    let res = interface(contents).validate(&all_contract_tags());
    assert!(res.diags.is_empty(), "{:#?}", res.diags);
}

#[test]
fn interface_test_interface_inheritdoc() {
    let contents = "/// @inheritdoc ITest
        interface Test is Foo {}";
    let res = interface(contents).validate(&title_only());
    assert_eq!(messages(&res), vec!["@title is missing"]);
}

#[test]
fn variable_test_variable() {
    let contents = "contract Test is ITest {
            /// @inheritdoc ITest
            uint256 public a;
        }";
    let res = variable(contents, "uint256 public a").validate(&ValidationOptions::default());
    assert!(res.diags.is_empty(), "{:#?}", res.diags);
}

#[test]
fn test_variable_no_natspec() {
    let contents = "contract Test {
            uint256 public a;
        }";
    let res = variable(contents, "uint256 public a").validate(&no_inheritdoc());
    assert_eq!(messages(&res), vec!["@notice is missing", "@return is missing"]);
}

#[test]
fn variable_test_variable_no_natspec_inheritdoc() {
    let contents = "contract Test {
            uint256 public a;
        }";
    let res = variable(contents, "uint256 public a").validate(&ValidationOptions::default());
    assert_eq!(messages(&res), vec!["@inheritdoc is missing"]);
}

#[test]
fn variable_test_variable_only_notice() {
    let contents = "contract Test {
            /// @notice The variable
            uint256 public a;
        }";
    let res = variable(contents, "uint256 public a").validate(&ValidationOptions::default());
    assert_eq!(messages(&res), vec!["@inheritdoc is missing"]);
}

#[test]
fn variable_test_variable_multiline() {
    let contents = "contract Test is ITest {
            /**
             * @inheritdoc ITest
             */
            uint256 public a;
        }";
    let res = variable(contents, "uint256 public a").validate(&ValidationOptions::default());
    assert!(res.diags.is_empty(), "{:#?}", res.diags);
}

#[test]
fn variable_test_requires_inheritdoc() {
    let contents = "contract Test is ITest {
            uint256 public a;
        }";
    assert!(variable(contents, "uint256 public a").requires_inheritdoc());
    let contents = "contract Test is ITest {
            uint256 internal a;
        }";
    assert!(!variable(contents, "uint256 internal a").requires_inheritdoc());
}

#[test]
fn variable_test_variable_no_inheritdoc() {
    let contents = "contract Test {
            /// @notice A variable
            uint256 internal a;
        }";
    let res = variable(contents, "uint256 internal a").validate(&no_inheritdoc());
    assert!(res.diags.is_empty(), "{:#?}", res.diags);
}
