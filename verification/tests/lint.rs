use lintspec::config::{
    BaseConfig, Config, ContractRules, FunctionConfig, FunctionRules, NoticeDevRules, Req,
    VariableConfig, WithParamsRules,
};
use lintspec::definitions::{
    Attributes, ConstructorDefinition, ContractDefinition, Definition, EnumDefinition,
    FunctionDefinition, Identifier, ItemType, ModifierDefinition, Parent, StructDefinition,
    VariableDeclaration, Visibility,
};
use lintspec::error::Error;
use lintspec::lint::{
    lint_definitions, lint_document, CheckNoticeAndDev, CheckParams, CheckReturns, Diagnostic,
    ValidationOptions, Validate,
};
use lintspec::natspec::{NatSpec, NatSpecItem, NatSpecKind};
use lintspec::parser::{DocumentId, ParsedDocument};
use lintspec::textindex::{TextIndex, TextRange};

fn at(utf8: usize) -> TextIndex {
    TextIndex {
        utf8,
        utf16: utf8,
        line: 0,
        column: utf8,
    }
}

fn span(start: usize, end: usize) -> TextRange {
    at(start)..at(end)
}

fn ident(name: &str, start: usize) -> Identifier {
    Identifier {
        name: Some(name.to_string()),
        span: span(start, start + name.len()),
    }
}

fn item(kind: NatSpecKind, comment: &str) -> NatSpecItem {
    NatSpecItem {
        kind,
        comment: comment.to_string(),
    }
}

fn messages(diags: &[Diagnostic]) -> Vec<String> {
    diags.iter().map(|d| d.message.clone()).collect()
}

#[test]
fn lint_test_validation_options_default() {
    let default_config = Config::default();
    let options = ValidationOptions::from(&default_config);
    assert_eq!(ValidationOptions::default(), options);
}

#[test]
fn lint_test_validation_options_conversion() {
    let config = Config::default();
    let options = ValidationOptions::from(&config);
    assert_eq!(config.lintspec.inheritdoc, options.inheritdoc);
    assert_eq!(config.lintspec.notice_or_dev, options.notice_or_dev);
    assert_eq!(config.contracts, options.contracts);
    assert_eq!(config.interfaces, options.interfaces);
    assert_eq!(config.libraries, options.libraries);
    assert_eq!(config.constructors, options.constructors);
    assert_eq!(config.enums, options.enums);
    assert_eq!(config.errors, options.errors);
    assert_eq!(config.events, options.events);
    assert_eq!(config.functions, options.functions);
    assert_eq!(config.modifiers, options.modifiers);
    assert_eq!(config.structs, options.structs);
    assert_eq!(config.variables, options.variables);

    let config = Config {
        lintspec: BaseConfig {
            inheritdoc: false,
            notice_or_dev: true,
            ..BaseConfig::default()
        },
        contracts: ContractRules {
            title: Req::Required,
            author: Req::Required,
            dev: Req::Required,
            notice: Req::Forbidden,
        },
        interfaces: ContractRules {
            title: Req::Ignored,
            author: Req::Forbidden,
            dev: Req::Forbidden,
            notice: Req::Required,
        },
        libraries: ContractRules {
            title: Req::Forbidden,
            author: Req::Ignored,
            dev: Req::Required,
            notice: Req::Ignored,
        },
        constructors: WithParamsRules {
            dev: Req::Required,
            ..WithParamsRules::default()
        },
        enums: WithParamsRules {
            param: Req::Required,
            ..WithParamsRules::default()
        },
        errors: WithParamsRules {
            notice: Req::Forbidden,
            ..WithParamsRules::default()
        },
        events: WithParamsRules {
            param: Req::Forbidden,
            ..WithParamsRules::default()
        },
        functions: FunctionConfig {
            private: FunctionRules {
                dev: Req::Required,
                ..FunctionRules::default()
            },
            ..FunctionConfig::default()
        },
        modifiers: WithParamsRules {
            dev: Req::Forbidden,
            ..WithParamsRules::default()
        },
        structs: WithParamsRules {
            notice: Req::Ignored,
            ..WithParamsRules::default()
        },
        variables: VariableConfig {
            private: NoticeDevRules {
                dev: Req::Required,
                ..NoticeDevRules::default()
            },
            ..VariableConfig::default()
        },
        ..Config::default()
    };
    let options = ValidationOptions::from(&config);
    assert_eq!(config.lintspec.inheritdoc, options.inheritdoc);
    assert_eq!(config.lintspec.notice_or_dev, options.notice_or_dev);
    assert_eq!(config.contracts, options.contracts);
    assert_eq!(config.interfaces, options.interfaces);
    assert_eq!(config.libraries, options.libraries);
    assert_eq!(config.constructors, options.constructors);
    assert_eq!(config.enums, options.enums);
    assert_eq!(config.errors, options.errors);
    assert_eq!(config.events, options.events);
    assert_eq!(config.functions, options.functions);
    assert_eq!(config.modifiers, options.modifiers);
    assert_eq!(config.structs, options.structs);
    assert_eq!(config.variables, options.variables);
}

#[test]
fn params_missing_without_natspec() {
    let natspec = None;
    let params = vec![ident("a", 10), Identifier { name: None, span: span(12, 13) }, ident("b", 14)];
    let diags = CheckParams::new(&natspec, Req::Required, &params, span(0, 20)).check();
    assert_eq!(messages(&diags), vec!["@param a is missing", "@param b is missing"]);
    assert_eq!(diags[1].span, span(14, 15));
}

#[test]
fn params_counted_with_natspec() {
    let natspec = Some(NatSpec {
        items: vec![
            item(NatSpecKind::Param { name: "a".to_string() }, ""),
            item(NatSpecKind::Param { name: "a".to_string() }, ""),
            item(NatSpecKind::Param { name: "z".to_string() }, ""),
        ],
    });
    let params = vec![ident("a", 10), ident("b", 14), Identifier { name: None, span: span(16, 17) }];
    let diags = CheckParams::new(&natspec, Req::Required, &params, span(0, 20)).check();
    assert_eq!(
        messages(&diags),
        vec![
            "extra @param z",
            "@param a is present more than once",
            "@param b is missing",
        ]
    );
    // ordered by the start of the span
    assert_eq!(diags[0].span, span(0, 20));
}

#[test]
fn unnamed_param_is_never_reported() {
    let natspec = Some(NatSpec::from(item(NatSpecKind::Notice, "A function")));
    let params = vec![Identifier { name: None, span: span(16, 17) }];
    let with_comment = CheckParams::new(&natspec, Req::Required, &params, span(0, 20)).check();
    assert!(with_comment.is_empty());
    let none = None;
    let without_comment = CheckParams::new(&none, Req::Required, &params, span(0, 20)).check();
    assert!(without_comment.is_empty());
}

#[test]
fn params_forbidden_and_ignored() {
    let natspec = Some(NatSpec::from(item(NatSpecKind::Param { name: "a".to_string() }, "")));
    let params = vec![ident("a", 10)];
    let forbidden = CheckParams::new(&natspec, Req::Forbidden, &params, span(0, 20)).check();
    assert_eq!(messages(&forbidden), vec!["@param is forbidden"]);
    let ignored = CheckParams::new(&natspec, Req::Ignored, &params, span(0, 20)).check();
    assert!(ignored.is_empty());
    let none = None;
    let forbidden_none = CheckParams::new(&none, Req::Forbidden, &params, span(0, 20)).check();
    assert!(forbidden_none.is_empty());
}

#[test]
fn returns_missing_and_unnamed() {
    let natspec = None;
    let rets = vec![
        ident("x", 10),
        Identifier { name: None, span: span(12, 13) },
        Identifier { name: None, span: span(14, 15) },
    ];
    let diags = CheckReturns::new(&natspec, Req::Required, &rets, span(0, 20), false).check();
    assert_eq!(
        messages(&diags),
        vec![
            "@return x is missing",
            "@return missing for unnamed return #2",
            "@return missing for unnamed return #3",
        ]
    );
    let var = CheckReturns::new(&natspec, Req::Required, &rets[1..2], span(0, 20), true).check();
    assert_eq!(messages(&var), vec!["@return is missing"]);
}

#[test]
fn returns_counted_with_natspec() {
    let natspec = Some(NatSpec {
        items: vec![
            item(NatSpecKind::Return { name: Some("x".to_string()) }, ""),
            item(NatSpecKind::Return { name: Some("x".to_string()) }, ""),
            item(NatSpecKind::Return { name: None }, ""),
            item(NatSpecKind::Return { name: None }, ""),
        ],
    });
    let rets = vec![ident("x", 10), Identifier { name: None, span: span(12, 13) }];
    let diags = CheckReturns::new(&natspec, Req::Required, &rets, span(0, 20), false).check();
    assert_eq!(
        messages(&diags),
        vec!["@return x is present more than once", "too many unnamed returns"]
    );
    assert_eq!(diags[1].span, span(12, 13));
    let forbidden = CheckReturns::new(&natspec, Req::Forbidden, &rets, span(0, 20), false).check();
    assert_eq!(messages(&forbidden), vec!["@return is forbidden"]);
}

#[test]
fn notice_or_dev_rules() {
    let dev_only = Some(NatSpec::from(item(NatSpecKind::Dev, "details")));
    let s = span(0, 5);
    let either = CheckNoticeAndDev::new(&dev_only, Req::Required, Req::Ignored, true, &s).check();
    assert!(either.is_empty());
    let separate = CheckNoticeAndDev::new(&dev_only, Req::Required, Req::Ignored, false, &s).check();
    assert_eq!(messages(&separate), vec!["@notice is missing"]);
    let none = None;
    let missing = CheckNoticeAndDev::new(&none, Req::Ignored, Req::Required, true, &s).check();
    assert_eq!(messages(&missing), vec!["@notice or @dev is missing"]);
    let forbidden = CheckNoticeAndDev::new(&dev_only, Req::Required, Req::Forbidden, true, &s).check();
    assert_eq!(messages(&forbidden), vec!["@notice is missing", "@dev is forbidden"]);
}

fn function(name: &str, visibility: Visibility, natspec: Option<NatSpec>) -> FunctionDefinition {
    FunctionDefinition {
        parent: Some(Parent::Contract("Test".to_string())),
        name: name.to_string(),
        span: span(0, 50),
        params: vec![ident("a", 20)],
        returns: vec![Identifier { name: None, span: span(40, 44) }],
        natspec,
        attributes: Attributes {
            visibility,
            is_override: false,
        },
    }
}

#[test]
fn function_validation() {
    let options = ValidationOptions {
        inheritdoc: false,
        ..ValidationOptions::default()
    };
    let res = function("foo", Visibility::External, None).validate(&options);
    assert_eq!(res.item_type, ItemType::ExternalFunction);
    assert_eq!(
        messages(&res.diags),
        vec![
            "@notice is missing",
            "@param a is missing",
            "@return missing for unnamed return #1",
        ]
    );
    let documented = Some(NatSpec {
        items: vec![
            item(NatSpecKind::Notice, "Foo"),
            item(NatSpecKind::Param { name: "a".to_string() }, "The a"),
            item(NatSpecKind::Return { name: None }, "The result"),
        ],
    });
    let res = function("foo", Visibility::Public, documented).validate(&options);
    assert!(res.diags.is_empty());
    let res = function("receive", Visibility::External, None).validate(&options);
    assert!(res.diags.is_empty());
}

#[test]
fn function_inheritdoc() {
    let options = ValidationOptions::default();
    let res = function("foo", Visibility::Public, None).validate(&options);
    assert_eq!(messages(&res.diags), vec!["@inheritdoc is missing"]);
    let inherited = Some(NatSpec::from(item(
        NatSpecKind::Inheritdoc { parent: "ITest".to_string() },
        "",
    )));
    let res = function("foo", Visibility::Public, inherited).validate(&options);
    assert!(res.diags.is_empty());
    // internal functions only need `@inheritdoc` when they override, with `inheritdoc_override`
    let mut f = function("foo", Visibility::Internal, None);
    f.attributes.is_override = true;
    assert!(!f.requires_inheritdoc(&options));
    let with_override = ValidationOptions {
        inheritdoc_override: true,
        ..ValidationOptions::default()
    };
    assert!(f.requires_inheritdoc(&with_override));
}

#[test]
fn modifier_and_variable_inheritdoc() {
    let options = ValidationOptions {
        inheritdoc_override: true,
        ..ValidationOptions::default()
    };
    let modifier = ModifierDefinition {
        parent: Some(Parent::Contract("Test".to_string())),
        name: "only".to_string(),
        span: span(0, 10),
        params: vec![],
        natspec: None,
        attributes: Attributes {
            visibility: Visibility::Internal,
            is_override: true,
        },
    };
    assert_eq!(messages(&modifier.validate(&options).diags), vec!["@inheritdoc is missing"]);
    let variable = VariableDeclaration {
        parent: Some(Parent::Contract("Test".to_string())),
        name: "x".to_string(),
        span: span(0, 10),
        natspec: None,
        attributes: Attributes {
            visibility: Visibility::Public,
            is_override: false,
        },
    };
    assert_eq!(messages(&variable.validate(&options).diags), vec!["@inheritdoc is missing"]);
    let no_inheritdoc = ValidationOptions {
        inheritdoc: false,
        ..ValidationOptions::default()
    };
    let res = variable.validate(&no_inheritdoc);
    assert_eq!(res.item_type, ItemType::PublicVariable);
    assert_eq!(messages(&res.diags), vec!["@notice is missing", "@return is missing"]);
}

#[test]
fn contract_rules() {
    let options = ValidationOptions {
        contracts: ContractRules {
            title: Req::Required,
            author: Req::Required,
            notice: Req::Required,
            dev: Req::Forbidden,
        },
        ..ValidationOptions::default()
    };
    let contract = ContractDefinition {
        name: "Test".to_string(),
        span: span(0, 10),
        natspec: Some(NatSpec::from(item(NatSpecKind::Dev, "dev"))),
    };
    let res = contract.validate(&options);
    assert_eq!(res.name, "Test");
    assert_eq!(
        messages(&res.diags),
        vec!["@title is missing", "@author is missing", "@notice is missing", "@dev is forbidden"]
    );
}

#[test]
fn lint_orders_items_and_skips_clean_ones() {
    let options = ValidationOptions {
        inheritdoc: false,
        enums: WithParamsRules::required(),
        ..ValidationOptions::default()
    };
    let definitions = vec![
        Definition::Struct(StructDefinition {
            parent: None,
            name: "S".to_string(),
            span: span(100, 120),
            members: vec![ident("m", 110)],
            natspec: Some(NatSpec::from(item(NatSpecKind::Notice, "A struct"))),
        }),
        Definition::Enumeration(EnumDefinition {
            parent: None,
            name: "E".to_string(),
            span: span(50, 70),
            members: vec![ident("B", 65), ident("A", 60)],
            natspec: None,
        }),
        Definition::Constructor(ConstructorDefinition {
            parent: Some(Parent::Contract("C".to_string())),
            span: span(10, 20),
            params: vec![ident("x", 15)],
            natspec: None,
        }),
        Definition::NatspecParsingError(Error::UnknownError),
    ];
    let items = lint_definitions(definitions, &options);
    assert_eq!(items.len(), 3);
    assert_eq!(items[0].item_type, ItemType::ParsingError);
    assert_eq!(messages(&items[0].diags), vec!["unknown error while parsing Solidity"]);
    assert_eq!(items[1].name, "constructor");
    assert_eq!(messages(&items[1].diags), vec!["@param x is missing"]);
    assert_eq!(items[2].name, "E");
    // the diagnostics of an item are ordered by span
    assert_eq!(
        messages(&items[2].diags),
        vec!["@notice is missing", "@param A is missing", "@param B is missing"]
    );
    let document = ParsedDocument {
        id: DocumentId(7),
        definitions: vec![],
    };
    assert!(lint_document("empty.sol".to_string(), document, &options).is_none());
}

#[test]
fn error_messages() {
    let e = Error::ParsingError {
        path: "a.sol".to_string(),
        loc: TextIndex {
            utf8: 10,
            utf16: 10,
            line: 2,
            column: 4,
        },
        message: "oops".to_string(),
    };
    assert_eq!(e.to_string(), "there was an error while parsing a.sol:3:5:\noops");
    let e = Error::IOError {
        path: "dir/a.sol".to_string(),
        err: "not found".to_string(),
    };
    assert_eq!(e.to_string(), "IO error for \"dir/a.sol\": not found");
    let e = Error::SolidityUnsupportedVersion("0.1.0".to_string());
    assert_eq!(
        e.to_string(),
        "the provided Solidity version is not supported: `0.1.0`"
    );
}
