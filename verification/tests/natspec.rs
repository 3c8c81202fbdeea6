use lintspec::comment::{
    multiline_comment, natspec_kind, one_multiline_natspec, parse_comment, single_line_comment,
};
use lintspec::natspec::{NatSpec, NatSpecItem, NatSpecKind};

/// The number of characters of a text
fn char_len(s: &str) -> usize {
    s.chars().count()
}

#[test]
fn test_kind() {
    let cases = [
        ("@title", NatSpecKind::Title),
        ("@author", NatSpecKind::Author),
        ("@notice", NatSpecKind::Notice),
        ("@dev", NatSpecKind::Dev),
        (
            "@param  foo",
            NatSpecKind::Param {
                name: "foo".to_string(),
            },
        ),
        ("@return", NatSpecKind::Return { name: None }),
        (
            "@inheritdoc  ISomething",
            NatSpecKind::Inheritdoc {
                parent: "ISomething".to_string(),
            },
        ),
        (
            "@custom:foo",
            NatSpecKind::Custom {
                tag: "foo".to_string(),
            },
        ),
    ];
    for case in cases {
        let res = natspec_kind(case.0);
        assert!(res.is_some(), "{res:?}");
        let (res, consumed) = res.unwrap();
        assert_eq!(consumed, char_len(case.0));
        assert_eq!(res, case.1);
    }
}

#[test]
fn test_one_multiline_item() {
    let cases = [
        ("@dev Hello world\n", NatSpecKind::Dev, "Hello world"),
        ("@title The Title\n", NatSpecKind::Title, "The Title"),
        (
            "        * @author McGyver <hi@buildanything.com>\n",
            NatSpecKind::Author,
            "McGyver <hi@buildanything.com>",
        ),
        (
            " @param foo The bar\r\n",
            NatSpecKind::Param {
                name: "foo".to_string(),
            },
            "The bar",
        ),
        (
            " @return something The return value\n",
            NatSpecKind::Return { name: None },
            "something The return value",
        ),
        (
            "\t* @custom:foo bar\n",
            NatSpecKind::Custom {
                tag: "foo".to_string(),
            },
            "bar",
        ),
        ("  lorem ipsum\n", NatSpecKind::Notice, "lorem ipsum"),
        ("lorem ipsum\r\n", NatSpecKind::Notice, "lorem ipsum"),
        ("\t*  foobar\n", NatSpecKind::Notice, "foobar"),
        ("    * foobar\n", NatSpecKind::Notice, "foobar"),
    ];
    for case in cases {
        let res = one_multiline_natspec(case.0);
        assert!(res.is_some(), "{res:?}");
        let (res, consumed) = res.unwrap();
        // the item is followed by exactly one line ending
        let rest: String = case.0.chars().skip(consumed).collect();
        assert!(rest == "\n" || rest == "\r\n", "{rest:?}");
        assert_eq!(
            res,
            NatSpecItem {
                kind: case.1,
                comment: case.2.to_string()
            }
        );
    }
}

#[test]
fn test_single_line() {
    let cases = [
        ("/// Foo bar\n", NatSpecKind::Notice, "Foo bar"),
        ("///  Baz\n", NatSpecKind::Notice, "Baz"),
        (
            "/// @notice  Hello world\n",
            NatSpecKind::Notice,
            "Hello world",
        ),
        (
            "/// @param foo This is bar\n",
            NatSpecKind::Param {
                name: "foo".to_string(),
            },
            "This is bar",
        ),
        (
            "/// @return The return value\r\n",
            NatSpecKind::Return { name: None },
            "The return value",
        ),
        (
            "/// @custom:foo  This is bar\n",
            NatSpecKind::Custom {
                tag: "foo".to_string(),
            },
            "This is bar",
        ),
    ];
    for case in cases {
        let res = single_line_comment(case.0);
        assert!(res.is_ok(), "{res:?}");
        let (res, consumed) = res.unwrap();
        assert_eq!(consumed, char_len(case.0));
        assert_eq!(
            res,
            NatSpec::from(NatSpecItem {
                kind: case.1,
                comment: case.2.to_string()
            })
        );
    }
}

#[test]
fn test_single_line_empty() {
    let res = single_line_comment("///\n");
    assert!(res.is_ok(), "{res:?}");
    let (res, consumed) = res.unwrap();
    assert_eq!(consumed, 4);
    assert_eq!(res, NatSpec::default());
}

#[test]
fn test_single_line_weird() {
    let res = single_line_comment("//// Hello\n");
    assert!(res.is_err());
}

#[test]
fn test_multiline() {
    let comment = "/**
     * @notice Some notice text.
     */";
    let res = multiline_comment(comment);
    assert!(res.is_ok(), "{res:?}");
    let (res, consumed) = res.unwrap();
    assert_eq!(consumed, char_len(comment));
    assert_eq!(
        res,
        NatSpec {
            items: vec![NatSpecItem {
                kind: NatSpecKind::Notice,
                comment: "Some notice text.".to_string()
            }]
        }
    );
}

#[test]
fn test_multiline2() {
    let comment = "/**
     * @notice Some notice text.
     * @custom:something
     */";
    let res = multiline_comment(comment);
    assert!(res.is_ok(), "{res:?}");
    let (res, consumed) = res.unwrap();
    assert_eq!(consumed, char_len(comment));
    assert_eq!(
        res,
        NatSpec {
            items: vec![
                NatSpecItem {
                    kind: NatSpecKind::Notice,
                    comment: "Some notice text.".to_string()
                },
                NatSpecItem {
                    kind: NatSpecKind::Custom {
                        tag: "something".to_string()
                    },
                    comment: String::new()
                }
            ]
        }
    );
}

#[test]
fn test_multiline3() {
    let comment = "/** @notice Some notice text.
Another notice
        * @param test
     \t** @custom:something */";
    let res = multiline_comment(comment);
    assert!(res.is_ok(), "{res:?}");
    let (res, consumed) = res.unwrap();
    assert_eq!(consumed, char_len(comment));
    assert_eq!(
        res,
        NatSpec {
            items: vec![
                NatSpecItem {
                    kind: NatSpecKind::Notice,
                    comment: "Some notice text.".to_string()
                },
                NatSpecItem {
                    kind: NatSpecKind::Notice,
                    comment: "Another notice".to_string()
                },
                NatSpecItem {
                    kind: NatSpecKind::Param {
                        name: "test".to_string()
                    },
                    comment: String::new()
                },
                NatSpecItem {
                    kind: NatSpecKind::Custom {
                        tag: "something".to_string()
                    },
                    comment: String::new()
                }
            ]
        }
    );
}

#[test]
fn test_multiline_empty() {
    let comment = "/**
        */";
    let res = parse_comment(comment);
    assert!(res.is_ok(), "{res:?}");
    let (res, consumed) = res.unwrap();
    assert_eq!(consumed, char_len(comment));
    assert_eq!(res, NatSpec::default());

    let comment = "/** */";
    let res = parse_comment(comment);
    assert!(res.is_ok(), "{res:?}");
    let (res, consumed) = res.unwrap();
    assert_eq!(consumed, char_len(comment));
    assert_eq!(res, NatSpec::default());
}

#[test]
fn test_multiline_weird() {
    let comment = "/**** @notice Some text
    ** */";
    let res = parse_comment(comment);
    assert!(res.is_err());
}
