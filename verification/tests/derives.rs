use ina::derives::{
    as_translation, as_translation_enum, as_translation_struct, optional, optional_fields, parse_data_format,
    parse_localizer_key, parse_optional_arguments, parse_stored_path, stored, AttrToken, DataFormatAttribute, DeriveData, EnumInput,
    FieldDefault, FieldModel, FieldsShape, KeyAttribute, KeyExpr, MacroError, OptionalArguments, OptionalField, OptionalInput,
    StoredInput, StoredPath, StructInput, TranslationDerive, VariantInput, VariantShape,
};

fn ident(s: &str) -> AttrToken {
    AttrToken::Ident(s.to_owned())
}

fn lit(s: &str) -> AttrToken {
    AttrToken::Str(s.to_owned())
}

fn other(s: &str) -> AttrToken {
    AttrToken::Other(s.to_owned())
}

fn strings(items: &[&str]) -> Vec<String> {
    items.iter().map(|s| (*s).to_owned()).collect()
}

/// `fmt = "{}-{}", from = [kind, name]`
fn format_key_tokens() -> Vec<AttrToken> {
    vec![
        ident("fmt"),
        AttrToken::Eq,
        lit("{}-{}"),
        AttrToken::Comma,
        ident("from"),
        AttrToken::Eq,
        AttrToken::Open,
        ident("kind"),
        AttrToken::Comma,
        ident("name"),
        AttrToken::Close,
    ]
}

fn struct_input(key: Option<Vec<AttrToken>>, fields: FieldsShape) -> StructInput {
    StructInput { name: "TypedField".to_owned(), category: Some("category::UI".to_owned()), key, fields }
}

#[test]
fn localizer_key_literal() {
    assert_eq!(parse_localizer_key(&vec![lit("boolean")]), Ok(KeyAttribute::Literal("boolean".to_owned())));
}

#[test]
fn localizer_key_from_field() {
    let tokens = vec![ident("from"), AttrToken::Eq, ident("title")];
    assert_eq!(parse_localizer_key(&tokens), Ok(KeyAttribute::Field("title".to_owned())));
}

#[test]
fn localizer_key_format() {
    assert_eq!(
        parse_localizer_key(&format_key_tokens()),
        Ok(KeyAttribute::Format("{}-{}".to_owned(), strings(&["kind", "name"])))
    );
}

#[test]
fn localizer_key_format_trailing_comma() {
    let mut tokens = format_key_tokens();
    tokens.insert(10, AttrToken::Comma);
    assert_eq!(
        parse_localizer_key(&tokens),
        Ok(KeyAttribute::Format("{}-{}".to_owned(), strings(&["kind", "name"])))
    );
}

#[test]
fn localizer_key_malformed() {
    let malformed = Err(MacroError::Malformed("localizer_key".to_owned()));
    assert_eq!(parse_localizer_key(&vec![]), malformed);
    assert_eq!(parse_localizer_key(&vec![ident("boolean")]), malformed);
    assert_eq!(parse_localizer_key(&vec![lit("a"), lit("b")]), malformed);
    assert_eq!(parse_localizer_key(&vec![ident("from"), AttrToken::Eq, lit("title")]), malformed);
    let mut missing_close = format_key_tokens();
    missing_close.pop();
    assert_eq!(parse_localizer_key(&missing_close), malformed);
}

#[test]
fn struct_key_from_field() {
    let input = StructInput {
        name: "Field".to_owned(),
        category: Some("category::UI".to_owned()),
        key: Some(vec![ident("from"), AttrToken::Eq, ident("title")]),
        fields: FieldsShape::Named(strings(&["title", "content"])),
    };
    let implementation = as_translation_struct(&input).unwrap();
    assert_eq!(implementation.category, "category::UI");
    assert_eq!(implementation.key, KeyExpr::Field("title".to_owned()));
}

#[test]
fn struct_key_format_by_shape() {
    let named = as_translation_struct(&struct_input(
        Some(format_key_tokens()),
        FieldsShape::Named(strings(&["kind", "name"])),
    ));
    assert_eq!(named.unwrap().key, KeyExpr::FormatFields("{}-{}".to_owned(), strings(&["kind", "name"])));
    let unnamed = as_translation_struct(&struct_input(Some(format_key_tokens()), FieldsShape::Unnamed(2)));
    assert_eq!(unnamed.unwrap().key, KeyExpr::FormatBound("{}-{}".to_owned(), strings(&["kind", "name"])));
}

#[test]
fn unit_struct_formatted_key_is_refused() {
    let refused = as_translation_struct(&struct_input(Some(format_key_tokens()), FieldsShape::Unit));
    assert_eq!(refused, Err(MacroError::UnitFormat));
    let bare = vec![
        ident("fmt"),
        AttrToken::Eq,
        lit("unit"),
        AttrToken::Comma,
        ident("from"),
        AttrToken::Eq,
        AttrToken::Open,
        AttrToken::Close,
    ];
    let accepted = as_translation_struct(&struct_input(Some(bare), FieldsShape::Unit));
    assert_eq!(accepted.unwrap().key, KeyExpr::FormatNone("unit".to_owned()));
}

#[test]
fn struct_missing_attributes() {
    let mut input = struct_input(None, FieldsShape::Unit);
    assert_eq!(as_translation_struct(&input), Err(MacroError::MissingAttribute("localizer_key".to_owned())));
    input.category = None;
    assert_eq!(as_translation_struct(&input), Err(MacroError::MissingAttribute("localizer_category".to_owned())));
}

fn variant(name: &str, key: Option<Vec<AttrToken>>) -> VariantInput {
    VariantInput { name: name.to_owned(), key, shape: VariantShape::Unit }
}

#[test]
fn enum_literal_keys() {
    let input = EnumInput {
        name: "DataType".to_owned(),
        category: Some("category::UI".to_owned()),
        variants: vec![
            variant("Boolean", Some(vec![lit("boolean")])),
            variant("Integer", Some(vec![lit("integer")])),
            variant("String", Some(vec![lit("string")])),
        ],
    };
    let implementation = as_translation_enum(&input).unwrap();
    assert_eq!(implementation.category, "category::UI");
    let keys: Vec<(String, KeyAttribute)> =
        implementation.arms.into_iter().map(|arm| (arm.variant, arm.key)).collect();
    assert_eq!(
        keys,
        vec![
            ("Boolean".to_owned(), KeyAttribute::Literal("boolean".to_owned())),
            ("Integer".to_owned(), KeyAttribute::Literal("integer".to_owned())),
            ("String".to_owned(), KeyAttribute::Literal("string".to_owned())),
        ]
    );
}

#[test]
fn enum_first_variant_error_wins() {
    let input = EnumInput {
        name: "Broken".to_owned(),
        category: Some("category::UI".to_owned()),
        variants: vec![
            variant("Fine", Some(vec![lit("fine")])),
            variant("Missing", None),
            variant("Malformed", Some(vec![ident("oops")])),
        ],
    };
    assert_eq!(as_translation_enum(&input), Err(MacroError::MissingAttribute("localizer_key".to_owned())));
    let mut input = input;
    input.variants.remove(1);
    assert_eq!(as_translation_enum(&input), Err(MacroError::Malformed("localizer_key".to_owned())));
    input.category = None;
    assert_eq!(as_translation_enum(&input), Err(MacroError::MissingAttribute("localizer_category".to_owned())));
}

#[test]
fn union_is_refused() {
    assert_eq!(as_translation(&DeriveData::Union("Bits".to_owned())), Err(MacroError::Union));
    let input = struct_input(Some(vec![lit("key")]), FieldsShape::Unit);
    match as_translation(&DeriveData::Struct(input)) {
        Ok(TranslationDerive::Struct(implementation)) => {
            assert_eq!(implementation.key, KeyExpr::Literal("key".to_owned()));
        }
        other => panic!("unexpected result: {other:?}"),
    }
}

/// `fmt = "dir/{}", args = [String], from = [name]`
fn stored_path_tokens() -> Vec<AttrToken> {
    vec![
        ident("fmt"),
        AttrToken::Eq,
        lit("dir/{}"),
        AttrToken::Comma,
        ident("args"),
        AttrToken::Eq,
        AttrToken::Open,
        ident("String"),
        AttrToken::Close,
        AttrToken::Comma,
        ident("from"),
        AttrToken::Eq,
        AttrToken::Open,
        ident("name"),
        AttrToken::Close,
    ]
}

#[test]
fn stored_path_documented_form() {
    assert_eq!(
        parse_stored_path(&stored_path_tokens()),
        Ok(StoredPath { format: "dir/{}".to_owned(), arguments: strings(&["String"]), fields: strings(&["name"]) })
    );
}

#[test]
fn stored_path_several_arguments() {
    let tokens = vec![
        ident("fmt"),
        AttrToken::Eq,
        lit("{}/{}"),
        AttrToken::Comma,
        ident("args"),
        AttrToken::Eq,
        AttrToken::Open,
        ident("u64"),
        AttrToken::Comma,
        ident("String"),
        AttrToken::Close,
        AttrToken::Comma,
        ident("from"),
        AttrToken::Eq,
        AttrToken::Open,
        ident("id"),
        AttrToken::Comma,
        ident("name"),
        AttrToken::Close,
    ];
    assert_eq!(
        parse_stored_path(&tokens),
        Ok(StoredPath {
            format: "{}/{}".to_owned(),
            arguments: strings(&["u64", "String"]),
            fields: strings(&["id", "name"]),
        })
    );
}

#[test]
fn stored_path_malformed() {
    let malformed = Err(MacroError::Malformed("data_path".to_owned()));
    let mut without_comma = stored_path_tokens();
    without_comma.remove(3);
    assert_eq!(parse_stored_path(&without_comma), malformed);
    let mut without_from = stored_path_tokens();
    without_from.truncate(9);
    assert_eq!(parse_stored_path(&without_from), malformed);
    let mut unclosed = stored_path_tokens();
    unclosed.remove(8);
    assert_eq!(parse_stored_path(&unclosed), malformed);
}

#[test]
fn data_format_forms() {
    assert_eq!(
        parse_data_format(&vec![ident("Compress<Messagepack>")]),
        Ok(DataFormatAttribute::Default("Compress<Messagepack>".to_owned()))
    );
    let expr = vec![other("Compress::new_fast"), other("(Messagepack)")];
    let mut tokens = vec![
        ident("kind"),
        AttrToken::Eq,
        ident("Compress<Messagepack>"),
        AttrToken::Comma,
        ident("from"),
        AttrToken::Eq,
    ];
    tokens.extend(expr.clone());
    assert_eq!(
        parse_data_format(&tokens),
        Ok(DataFormatAttribute::Expr("Compress<Messagepack>".to_owned(), expr))
    );
    assert_eq!(parse_data_format(&vec![]), Err(MacroError::Malformed("data_format".to_owned())));
}

#[test]
fn stored_derive_attributes() {
    let mut input = StoredInput {
        name: "DataStructure".to_owned(),
        format: Some(vec![ident("Messagepack")]),
        path: Some(stored_path_tokens()),
    };
    let implementation = stored(&input).unwrap();
    assert_eq!(implementation.format, DataFormatAttribute::Default("Messagepack".to_owned()));
    assert_eq!(implementation.path.fields, strings(&["name"]));
    input.path = None;
    assert_eq!(stored(&input), Err(MacroError::MissingAttribute("data_path".to_owned())));
    input.format = None;
    assert_eq!(stored(&input), Err(MacroError::MissingAttribute("data_format".to_owned())));
}

fn field(name: &str, option: Option<Vec<AttrToken>>) -> FieldModel {
    FieldModel { name: Some(name.to_owned()), ty: strings(&["bool"]), option }
}

#[test]
fn optional_fields_documented_forms() {
    let expr = vec![other("self::default_reshard_interval"), other("()")];
    let mut with_expr = vec![ident("default"), AttrToken::Eq];
    with_expr.extend(expr.clone());
    let settings_type = strings(&["my_other_crate", "Settings"]);
    let fields = vec![
        field("shards", Some(vec![ident("default")])),
        field("reshard_interval", Some(with_expr)),
        FieldModel { name: Some("bot_settings".to_owned()), ty: settings_type.clone(), option: Some(vec![ident("flatten")]) },
        FieldModel { name: Some("kept".to_owned()), ty: settings_type.clone(), option: Some(vec![ident("default")]) },
    ];
    assert_eq!(
        optional_fields(&fields),
        Ok(vec![
            OptionalField { name: "shards".to_owned(), default: FieldDefault::Trait, ty: strings(&["bool"]) },
            OptionalField {
                name: "reshard_interval".to_owned(),
                default: FieldDefault::Expr(expr),
                ty: strings(&["bool"]),
            },
            OptionalField {
                name: "bot_settings".to_owned(),
                default: FieldDefault::Flatten,
                ty: strings(&["my_other_crate", "OptionalSettings"]),
            },
            OptionalField { name: "kept".to_owned(), default: FieldDefault::Trait, ty: settings_type },
        ])
    );
}

#[test]
fn optional_fields_refused_annotations() {
    let missing = vec![field("quiet", Some(vec![ident("default")])), field("loud", None)];
    assert_eq!(optional_fields(&missing), Err(MacroError::MissingAttribute("option".to_owned())));
    let malformed = vec![field("quiet", Some(vec![ident("default"), AttrToken::Eq]))];
    assert_eq!(optional_fields(&malformed), Err(MacroError::Malformed("option".to_owned())));
    let unnamed_after_error = vec![field("quiet", None), FieldModel {
        name: None,
        ty: strings(&["u8"]),
        option: Some(vec![ident("default")]),
    }];
    assert_eq!(optional_fields(&unnamed_after_error), Err(MacroError::MissingAttribute("option".to_owned())));
}

#[test]
fn optional_struct_names() {
    let input = OptionalInput {
        name: "Settings".to_owned(),
        is_struct: true,
        fields: vec![field("quiet", Some(vec![ident("default")]))],
    };
    let made = optional(&input).unwrap();
    assert_eq!(made.name, "Settings");
    assert_eq!(made.optional_name, "OptionalSettings");
    assert_eq!(made.fields.len(), 1);
    let not_struct = OptionalInput { name: "Mode".to_owned(), is_struct: false, fields: vec![] };
    assert_eq!(optional(&not_struct), Err(MacroError::NotStruct));
}

#[test]
fn optional_arguments_documented_form() {
    let tokens = vec![
        ident("keep_annotations"),
        AttrToken::Eq,
        AttrToken::Open,
        ident("non_exhaustive"),
        AttrToken::Close,
        AttrToken::Comma,
        ident("apply_derives"),
        AttrToken::Eq,
        AttrToken::Open,
        ident("Clone"),
        AttrToken::Comma,
        ident("Debug"),
        AttrToken::Close,
        AttrToken::Comma,
        ident("apply_annotations"),
        AttrToken::Eq,
        other("{ #[expect(clippy::struct_excessive_bools)] }"),
        AttrToken::Comma,
    ];
    assert_eq!(
        parse_optional_arguments(&tokens),
        Ok(OptionalArguments {
            apply_derives: Some(strings(&["Clone", "Debug"])),
            keep_annotations: strings(&["non_exhaustive", "doc", "derive"]),
            keep_field_annotations: strings(&["doc"]),
            apply_annotations: Some("{ #[expect(clippy::struct_excessive_bools)] }".to_owned()),
        })
    );
}

#[test]
fn optional_arguments_defaults_and_refusals() {
    assert_eq!(
        parse_optional_arguments(&vec![]),
        Ok(OptionalArguments {
            apply_derives: None,
            keep_annotations: strings(&["doc"]),
            keep_field_annotations: strings(&["doc"]),
            apply_annotations: None,
        })
    );
    let malformed = Err(MacroError::Malformed("optional".to_owned()));
    let unknown = vec![ident("keep_everything"), AttrToken::Eq, AttrToken::Open, AttrToken::Close];
    assert_eq!(parse_optional_arguments(&unknown), malformed);
    let not_a_list = vec![ident("apply_derives"), AttrToken::Eq, ident("Clone")];
    assert_eq!(parse_optional_arguments(&not_a_list), malformed);
    let later_wins = vec![
        ident("keep_field_annotations"),
        AttrToken::Eq,
        AttrToken::Open,
        ident("arg"),
        AttrToken::Close,
        AttrToken::Comma,
        ident("keep_field_annotations"),
        AttrToken::Eq,
        AttrToken::Open,
        ident("serde"),
        AttrToken::Close,
    ];
    assert_eq!(parse_optional_arguments(&later_wins).unwrap().keep_field_annotations, strings(&["serde", "doc"]));
}
