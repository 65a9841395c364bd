//! The schema compiler: derived artifacts for a whole schema, and the
//! schema errors.

use yoetz::attr::{AttrToken, Delimiter};
use yoetz::compile::{impl_suggestion, StrategyShape};
use yoetz::schema::{
    AttrPayload, FieldInput, FieldRole, FieldsInput, InputAttr, InputData, SchemaError,
    SuggestionInput, VariantInput,
};

fn ident(s: &str) -> AttrToken {
    AttrToken::Ident(s.to_string())
}

fn group(tokens: Vec<AttrToken>) -> AttrToken {
    AttrToken::Group(Delimiter::Parenthesis, tokens)
}

fn yoetz_attr(tokens: Vec<AttrToken>) -> InputAttr {
    InputAttr {
        path: "yoetz".to_string(),
        payload: AttrPayload::List(tokens),
    }
}

fn role_field(name: &str, role: &str) -> FieldInput {
    FieldInput {
        name: name.to_string(),
        attrs: vec![yoetz_attr(vec![ident(role)])],
    }
}

fn variant(name: &str, fields: FieldsInput) -> VariantInput {
    VariantInput {
        name: name.to_string(),
        fields,
    }
}

/// The enemy-behavior schema: a unit variant, a chase variant with a key
/// and an input field, and a circle variant that also owns a state field.
fn enemy_behavior() -> SuggestionInput {
    SuggestionInput {
        name: "EnemyBehavior".to_string(),
        attrs: vec![yoetz_attr(vec![
            ident("key_enum"),
            group(vec![ident("derive"), group(vec![ident("Debug")])]),
            AttrToken::Punct(','),
            ident("strategy_structs"),
            group(vec![ident("derive"), group(vec![ident("Debug")])]),
        ])],
        data: InputData::Enum(vec![
            variant("Idle", FieldsInput::Unit),
            variant(
                "Chase",
                FieldsInput::Named(vec![
                    role_field("target_entity", "key"),
                    role_field("vec_to_target", "input"),
                ]),
            ),
            variant(
                "Circle",
                FieldsInput::Named(vec![
                    role_field("target_entity", "key"),
                    role_field("vec_to_target", "input"),
                    role_field("go_counter_clockwise", "state"),
                ]),
            ),
        ]),
    }
}

#[test]
fn compiles_enemy_behavior_schema() {
    let a = impl_suggestion(enemy_behavior()).unwrap();

    assert_eq!(a.key_enum.name, "EnemyBehaviorKey");
    assert_eq!(a.key_enum.derives, vec!["Debug".to_string()]);
    assert_eq!(a.key_enum.variants.len(), 3);
    assert_eq!(a.key_enum.variants[0].name, "Idle");
    assert!(a.key_enum.variants[0].unit);
    assert!(a.key_enum.variants[0].fields.is_empty());
    assert_eq!(a.key_enum.variants[1].name, "Chase");
    assert!(!a.key_enum.variants[1].unit);
    assert_eq!(a.key_enum.variants[1].fields, vec!["target_entity".to_string()]);
    assert_eq!(a.key_enum.variants[2].fields, vec!["target_entity".to_string()]);

    assert_eq!(a.omni_query.name, "EnemyBehaviorOmniQuery");
    assert_eq!(
        a.omni_query.slots,
        vec![
            "EnemyBehaviorIdle".to_string(),
            "EnemyBehaviorChase".to_string(),
            "EnemyBehaviorCircle".to_string(),
        ]
    );

    assert_eq!(
        a.trait_impl.signature.variants,
        vec![
            vec![],
            vec![FieldRole::Key, FieldRole::Input],
            vec![FieldRole::Key, FieldRole::Input, FieldRole::State],
        ]
    );
    assert_eq!(a.trait_impl.remove_arms[1], "EnemyBehaviorChase");
    assert_eq!(a.trait_impl.add_arms[1].strategy, "EnemyBehaviorChase");
    assert_eq!(
        a.trait_impl.add_arms[2].field_names,
        vec![
            "target_entity".to_string(),
            "vec_to_target".to_string(),
            "go_counter_clockwise".to_string(),
        ]
    );
    assert_eq!(a.trait_impl.update_arms[0].input_fields, Vec::<String>::new());
    assert_eq!(
        a.trait_impl.update_arms[2].input_fields,
        vec!["vec_to_target".to_string()]
    );
    assert_eq!(a.trait_impl.key_arms[1].fields, vec!["target_entity".to_string()]);

    assert_eq!(a.strategies.len(), 3);
    assert_eq!(a.strategies[0].name, "EnemyBehaviorIdle");
    assert_eq!(a.strategies[0].shape, StrategyShape::Unit);
    assert_eq!(a.strategies[1].name, "EnemyBehaviorChase");
    assert_eq!(a.strategies[1].shape, StrategyShape::Named);
    assert_eq!(a.strategies[1].derives, vec!["Debug".to_string()]);
    assert_eq!(a.strategies[2].fields.len(), 3);
    assert_eq!(a.strategies[2].fields[0].name, "target_entity");
    assert_eq!(a.strategies[2].fields[0].role, FieldRole::Key);
    assert_eq!(a.strategies[2].fields[1].role, FieldRole::Input);
    assert_eq!(a.strategies[2].fields[2].role, FieldRole::State);
}

#[test]
fn compiles_schema_without_attributes() {
    let ast = SuggestionInput {
        name: "Ai".to_string(),
        attrs: vec![],
        data: InputData::Enum(vec![
            variant("Wait", FieldsInput::Unit),
            variant(
                "Go",
                FieldsInput::Named(vec![role_field("dest", "key")]),
            ),
        ]),
    };
    let a = impl_suggestion(ast).unwrap();
    assert_eq!(a.key_enum.name, "AiKey");
    assert_eq!(a.key_enum.derives, Vec::<String>::new());
    assert_eq!(a.strategies[1].name, "AiGo");
    assert_eq!(a.trait_impl.signature.variants, vec![vec![], vec![FieldRole::Key]]);
}

#[test]
fn rejects_non_enum_input() {
    let ast = SuggestionInput {
        name: "NotAnEnum".to_string(),
        attrs: vec![],
        data: InputData::NotAnEnum,
    };
    assert_eq!(impl_suggestion(ast), Err(SchemaError::NotAnEnum));
}

#[test]
fn rejects_field_without_role() {
    let ast = SuggestionInput {
        name: "Ai".to_string(),
        attrs: vec![],
        data: InputData::Enum(vec![variant(
            "Go",
            FieldsInput::Named(vec![FieldInput {
                name: "dest".to_string(),
                attrs: vec![],
            }]),
        )]),
    };
    assert_eq!(
        impl_suggestion(ast),
        Err(SchemaError::MissingRole {
            field: "dest".to_string(),
        })
    );
}

#[test]
fn rejects_repeated_role() {
    let ast = SuggestionInput {
        name: "Ai".to_string(),
        attrs: vec![],
        data: InputData::Enum(vec![variant(
            "Go",
            FieldsInput::Named(vec![FieldInput {
                name: "dest".to_string(),
                attrs: vec![yoetz_attr(vec![
                    ident("key"),
                    AttrToken::Punct(','),
                    ident("input"),
                ])],
            }]),
        )]),
    };
    assert_eq!(impl_suggestion(ast), Err(SchemaError::RepeatedRole));
}

#[test]
fn rejects_unknown_field_parameter() {
    let ast = SuggestionInput {
        name: "Ai".to_string(),
        attrs: vec![],
        data: InputData::Enum(vec![variant(
            "Go",
            FieldsInput::Named(vec![FieldInput {
                name: "dest".to_string(),
                attrs: vec![yoetz_attr(vec![ident("frobnicate")])],
            }]),
        )]),
    };
    assert_eq!(
        impl_suggestion(ast),
        Err(SchemaError::UnknownParameter {
            name: "frobnicate".to_string(),
        })
    );
}

#[test]
fn rejects_role_in_key_value_form() {
    let ast = SuggestionInput {
        name: "Ai".to_string(),
        attrs: vec![],
        data: InputData::Enum(vec![variant(
            "Go",
            FieldsInput::Named(vec![FieldInput {
                name: "dest".to_string(),
                attrs: vec![yoetz_attr(vec![
                    ident("key"),
                    AttrToken::Punct('='),
                    AttrToken::Literal("1".to_string()),
                ])],
            }]),
        )]),
    };
    assert_eq!(
        impl_suggestion(ast),
        Err(SchemaError::NotSupportedAsKeyValue {
            name: "key".to_string(),
        })
    );
}

#[test]
fn rejects_nullified_role() {
    let ast = SuggestionInput {
        name: "Ai".to_string(),
        attrs: vec![],
        data: InputData::Enum(vec![variant(
            "Go",
            FieldsInput::Named(vec![FieldInput {
                name: "dest".to_string(),
                attrs: vec![yoetz_attr(vec![AttrToken::Punct('!'), ident("key")])],
            }]),
        )]),
    };
    assert_eq!(
        impl_suggestion(ast),
        Err(SchemaError::CannotBeNullified {
            name: "key".to_string(),
        })
    );
}

#[test]
fn rejects_tuple_variant() {
    let ast = SuggestionInput {
        name: "Ai".to_string(),
        attrs: vec![],
        data: InputData::Enum(vec![variant(
            "Go",
            FieldsInput::Unnamed(vec![role_field("0", "key")]),
        )]),
    };
    assert_eq!(
        impl_suggestion(ast),
        Err(SchemaError::TupleVariant {
            variant: "Go".to_string(),
        })
    );
}

#[test]
fn rejects_unknown_union_setting() {
    let ast = SuggestionInput {
        name: "Ai".to_string(),
        attrs: vec![yoetz_attr(vec![ident("strategy")])],
        data: InputData::Enum(vec![variant("Wait", FieldsInput::Unit)]),
    };
    assert_eq!(
        impl_suggestion(ast),
        Err(SchemaError::UnknownParameter {
            name: "strategy".to_string(),
        })
    );
}

#[test]
fn rejects_key_enum_setting_in_flag_form() {
    let ast = SuggestionInput {
        name: "Ai".to_string(),
        attrs: vec![yoetz_attr(vec![ident("key_enum")])],
        data: InputData::Enum(vec![variant("Wait", FieldsInput::Unit)]),
    };
    assert_eq!(
        impl_suggestion(ast),
        Err(SchemaError::NotSupportedAsFlag {
            name: "key_enum".to_string(),
        })
    );
}

#[test]
fn rejects_empty_attribute_list() {
    let ast = SuggestionInput {
        name: "Ai".to_string(),
        attrs: vec![yoetz_attr(vec![])],
        data: InputData::Enum(vec![variant("Wait", FieldsInput::Unit)]),
    };
    assert_eq!(impl_suggestion(ast), Err(SchemaError::ExpectedList));
}

#[test]
fn rejects_non_list_attribute() {
    let ast = SuggestionInput {
        name: "Ai".to_string(),
        attrs: vec![InputAttr {
            path: "yoetz".to_string(),
            payload: AttrPayload::Other,
        }],
        data: InputData::Enum(vec![variant("Wait", FieldsInput::Unit)]),
    };
    assert_eq!(impl_suggestion(ast), Err(SchemaError::ExpectedList));
}

#[test]
fn rejects_derive_of_non_path() {
    let ast = SuggestionInput {
        name: "Ai".to_string(),
        attrs: vec![yoetz_attr(vec![
            ident("key_enum"),
            group(vec![
                ident("derive"),
                group(vec![ident("a"), AttrToken::Punct('='), ident("b")]),
            ]),
        ])],
        data: InputData::Enum(vec![variant("Wait", FieldsInput::Unit)]),
    };
    assert_eq!(impl_suggestion(ast), Err(SchemaError::ExpectedPath));
}

#[test]
fn ignores_foreign_attributes() {
    let ast = SuggestionInput {
        name: "Ai".to_string(),
        attrs: vec![InputAttr {
            path: "derive".to_string(),
            payload: AttrPayload::Other,
        }],
        data: InputData::Enum(vec![variant(
            "Go",
            FieldsInput::Named(vec![FieldInput {
                name: "dest".to_string(),
                attrs: vec![
                    InputAttr {
                        path: "doc".to_string(),
                        payload: AttrPayload::Other,
                    },
                    yoetz_attr(vec![ident("state")]),
                ],
            }]),
        )]),
    };
    let a = impl_suggestion(ast).unwrap();
    assert_eq!(a.trait_impl.signature.variants, vec![vec![FieldRole::State]]);
}
