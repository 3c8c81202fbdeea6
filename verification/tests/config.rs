use lintspec::case::{split_into_words, to_snake_case};
use lintspec::config::{Config, Req, WithParamsRules};
use lintspec::definitions::{ContractType, ItemType};
use lintspec::natspec::{NatSpec, NatSpecItem, NatSpecKind};
use lintspec::definitions::Identifier;
use lintspec::overrides::{apply_overrides, CliOverrides, ContractTypeLists, ItemTypeLists};
use lintspec::textindex::TextIndex;

fn no_items() -> ItemTypeLists {
    ItemTypeLists {
        ignored: vec![],
        required: vec![],
        forbidden: vec![],
    }
}

fn overrides() -> CliOverrides {
    CliOverrides {
        paths: vec!["src".to_string()],
        exclude: vec![],
        out: None,
        inheritdoc: Some(false),
        inheritdoc_override: None,
        notice_or_dev: None,
        skip_version_detection: None,
        json: Some(true),
        compact: None,
        sort: None,
        title: ContractTypeLists {
            ignored: vec![],
            required: vec![ContractType::Contract, ContractType::Library],
            forbidden: vec![ContractType::Library],
        },
        author: ContractTypeLists {
            ignored: vec![],
            required: vec![],
            forbidden: vec![],
        },
        notice: ItemTypeLists {
            ignored: vec![ItemType::Enum, ItemType::Error],
            required: vec![ItemType::Error],
            forbidden: vec![],
        },
        dev: no_items(),
        param: ItemTypeLists {
            ignored: vec![ItemType::PublicVariable],
            required: vec![ItemType::Enum],
            forbidden: vec![],
        },
        returns: ItemTypeLists {
            ignored: vec![ItemType::PublicVariable],
            required: vec![],
            forbidden: vec![ItemType::ExternalFunction],
        },
    }
}

#[test]
fn cli_overrides_take_precedence() {
    let mut config = Config::default();
    apply_overrides(&mut config, overrides());
    assert_eq!(config.lintspec.paths, vec!["src".to_string()]);
    assert!(!config.lintspec.inheritdoc);
    assert!(config.output.json);
    assert!(!config.output.compact);
    assert_eq!(config.contracts.title, Req::Required);
    // forbidden takes precedence over required
    assert_eq!(config.libraries.title, Req::Forbidden);
    assert_eq!(config.interfaces.title, Req::Ignored);
    assert_eq!(config.enums.notice, Req::Ignored);
    // required takes precedence over ignored
    assert_eq!(config.errors.notice, Req::Required);
    assert_eq!(
        config.enums,
        WithParamsRules {
            notice: Req::Ignored,
            dev: Req::Ignored,
            param: Req::Required
        }
    );
    assert_eq!(config.functions.external.returns, Req::Forbidden);
    assert_eq!(config.functions.public.returns, Req::Required);
    assert_eq!(config.variables.public.returns, Req::Ignored);
}

#[test]
fn test_case_conversion() {
    assert_eq!(to_snake_case("FooBar"), "foo_bar");
    assert_eq!(to_snake_case("HTTPServer"), "http_server");
    assert_eq!(to_snake_case("XMLParser"), "xml_parser");
    assert_eq!(to_snake_case("URLPath"), "url_path");
    assert_eq!(to_snake_case("IOError"), "io_error");
}

#[test]
fn split_words_on_case_and_separators() {
    assert_eq!(split_into_words("fooBar"), vec!["foo", "Bar"]);
    assert_eq!(split_into_words("foo1Bar"), vec!["foo1", "Bar"]);
    assert_eq!(split_into_words("BARBaz"), vec!["BAR", "Baz"]);
    assert_eq!(split_into_words("snake_case-and kebab"), vec!["snake", "case", "and", "kebab"]);
    assert!(split_into_words("").is_empty());
    assert!(split_into_words("__").is_empty());
}

#[test]
fn populate_named_returns() {
    let rets = vec![Identifier {
        name: Some("amount".to_string()),
        span: TextIndex::zero()..TextIndex::zero(),
    }];
    let natspec = NatSpec {
        items: vec![
            NatSpecItem {
                kind: NatSpecKind::Return { name: None },
                comment: "amount  The amount".to_string(),
            },
            NatSpecItem {
                kind: NatSpecKind::Return { name: None },
                comment: "The other value".to_string(),
            },
            NatSpecItem {
                kind: NatSpecKind::Notice,
                comment: "amount".to_string(),
            },
        ],
    };
    let natspec = natspec.populate_returns(&rets);
    assert_eq!(
        natspec.items,
        vec![
            NatSpecItem {
                kind: NatSpecKind::Return {
                    name: Some("amount".to_string())
                },
                comment: "The amount".to_string(),
            },
            NatSpecItem {
                kind: NatSpecKind::Return { name: None },
                comment: "The other value".to_string(),
            },
            NatSpecItem {
                kind: NatSpecKind::Notice,
                comment: "amount".to_string(),
            },
        ]
    );
    assert_eq!(natspec.count_all_returns(), 2);
    assert_eq!(natspec.count_unnamed_returns(), 1);
    assert_eq!(natspec.count_return(&rets[0]), 1);
}
