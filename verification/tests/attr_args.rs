//! The attribute-argument language: parsing token trees into arguments,
//! and the argument accessors.

use yoetz::attr::{parse_attr_args, AttrArg, AttrToken, Delimiter, KeyValue, SubAttr};
use yoetz::schema::SchemaError;

fn ident(s: &str) -> AttrToken {
    AttrToken::Ident(s.to_string())
}

#[test]
fn parses_flag() {
    let args = parse_attr_args(vec![ident("key")]).unwrap();
    assert_eq!(args, vec![AttrArg::Flag("key".to_string())]);
}

#[test]
fn parses_empty_list() {
    let args = parse_attr_args(vec![]).unwrap();
    assert!(args.is_empty());
}

#[test]
fn parses_nullification() {
    let args = parse_attr_args(vec![AttrToken::Punct('!'), ident("cache")]).unwrap();
    assert_eq!(
        args,
        vec![AttrArg::Not {
            name: "cache".to_string(),
        }]
    );
}

#[test]
fn parses_key_value_up_to_comma() {
    let args = parse_attr_args(vec![
        ident("limit"),
        AttrToken::Punct('='),
        AttrToken::Literal("10".to_string()),
        AttrToken::Punct(','),
        ident("fast"),
    ])
    .unwrap();
    assert_eq!(
        args,
        vec![
            AttrArg::KeyValue(KeyValue {
                name: "limit".to_string(),
                value: vec![AttrToken::Literal("10".to_string())],
            }),
            AttrArg::Flag("fast".to_string()),
        ]
    );
}

#[test]
fn parses_nested_attribute() {
    let args = parse_attr_args(vec![
        ident("derive"),
        AttrToken::Group(Delimiter::Parenthesis, vec![ident("Debug")]),
    ])
    .unwrap();
    assert_eq!(
        args,
        vec![AttrArg::Sub(SubAttr {
            name: "derive".to_string(),
            args: vec![ident("Debug")],
        })]
    );
}

#[test]
fn accepts_trailing_comma() {
    let args = parse_attr_args(vec![ident("key"), AttrToken::Punct(',')]).unwrap();
    assert_eq!(args.len(), 1);
}

#[test]
fn rejects_empty_segment() {
    assert_eq!(
        parse_attr_args(vec![AttrToken::Punct(','), ident("key")]),
        Err(SchemaError::MalformedArg)
    );
}

#[test]
fn rejects_braced_group() {
    assert_eq!(
        parse_attr_args(vec![
            ident("derive"),
            AttrToken::Group(Delimiter::Brace, vec![ident("Debug")]),
        ]),
        Err(SchemaError::MalformedArg)
    );
}

#[test]
fn rejects_value_missing_after_equals() {
    assert_eq!(
        parse_attr_args(vec![ident("limit"), AttrToken::Punct('=')]),
        Err(SchemaError::MalformedArg)
    );
}

#[test]
fn name_reads_every_form() {
    assert_eq!(AttrArg::Flag("a".to_string()).name(), "a");
    assert_eq!(
        AttrArg::Not {
            name: "b".to_string(),
        }
        .name(),
        "b"
    );
    assert_eq!(
        AttrArg::KeyValue(KeyValue {
            name: "c".to_string(),
            value: vec![],
        })
        .name(),
        "c"
    );
    assert_eq!(
        AttrArg::Sub(SubAttr {
            name: "d".to_string(),
            args: vec![],
        })
        .name(),
        "d"
    );
}

#[test]
fn flag_accessor_rejects_other_forms() {
    assert_eq!(
        AttrArg::Flag("a".to_string()).flag(),
        Ok("a".to_string())
    );
    assert_eq!(
        AttrArg::Sub(SubAttr {
            name: "d".to_string(),
            args: vec![],
        })
        .flag(),
        Err(SchemaError::NotSupportedAsNestedAttribute {
            name: "d".to_string(),
        })
    );
}

#[test]
fn key_value_or_not_accepts_nullification() {
    assert_eq!(
        AttrArg::Not {
            name: "b".to_string(),
        }
        .key_value_or_not(),
        Ok(None)
    );
    assert_eq!(
        AttrArg::Flag("a".to_string()).key_value_or_not(),
        Err(SchemaError::NotSupportedAsFlag {
            name: "a".to_string(),
        })
    );
}

#[test]
fn sub_attr_parses_its_arguments() {
    let sub = SubAttr {
        name: "derive".to_string(),
        args: vec![ident("Debug"), AttrToken::Punct(','), ident("Clone")],
    };
    let args = sub.args().unwrap();
    assert_eq!(
        args,
        vec![
            AttrArg::Flag("Debug".to_string()),
            AttrArg::Flag("Clone".to_string()),
        ]
    );
}

#[test]
fn apply_flag_to_field_sets_once_and_clears() {
    let mut field: Option<String> = None;
    AttrArg::Flag("fast".to_string())
        .apply_flag_to_field(&mut field, "marked fast")
        .unwrap();
    assert_eq!(field, Some("fast".to_string()));

    let again = AttrArg::Flag("fast".to_string()).apply_flag_to_field(&mut field, "marked fast");
    assert_eq!(
        again,
        Err(SchemaError::AlreadySet {
            caption: "marked fast".to_string(),
        })
    );

    AttrArg::Not {
        name: "fast".to_string(),
    }
    .apply_flag_to_field(&mut field, "marked fast")
    .unwrap();
    assert_eq!(field, None);
}
