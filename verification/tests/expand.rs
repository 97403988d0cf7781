use pyexc::expand::pyexc_macro;
use pyexc::model::{
    ArmKind, BaseAttr, DeriveError, EnumSpec, FieldsKind, LitValue, UseBase, VariantSpec,
};

fn variant(name: &str, fields: FieldsKind, format: Option<&str>, base: Option<BaseAttr>) -> VariantSpec {
    VariantSpec {
        name: name.to_string(),
        fields,
        format: format.map(|f| f.to_string()),
        base,
    }
}

fn plain_base() -> Option<BaseAttr> {
    Some(BaseAttr { module: LitValue::Str("errors".to_string()), inherits: None })
}

#[test]
fn expands_three_variant_enum() {
    let input = EnumSpec {
        name: "MyError".to_string(),
        variants: vec![
            variant("Base", FieldsKind::Unit, Some("base failed"), plain_base()),
            variant("Code", FieldsKind::Unnamed(1), Some("code {}"), None),
            variant(
                "Bad",
                FieldsKind::Named(vec!["name".to_string()]),
                Some("bad {name}"),
                None,
            ),
        ],
    };
    let g = pyexc_macro(&input).unwrap();
    assert_eq!(g.module_name, "errors");
    assert_eq!(g.enum_name, "MyError");
    assert_eq!(g.base_use, None);

    assert_eq!(g.exceptions.len(), 3);
    assert_eq!(g.exceptions[0].name, "MyError");
    assert_eq!(g.exceptions[0].base, "PyException");
    assert_eq!(g.exceptions[1].name, "Code");
    assert_eq!(g.exceptions[1].base, "MyError");
    assert_eq!(g.exceptions[2].name, "Bad");
    assert_eq!(g.exceptions[2].base, "MyError");

    assert_eq!(g.arms.len(), 3);
    assert_eq!(g.arms[0].variant_name, "Base");
    assert_eq!(g.arms[0].binders, Vec::<String>::new());
    assert_eq!(g.arms[0].exc_name, "MyError");
    assert_eq!(g.arms[0].message, "base failed");
    assert_eq!(g.arms[0].kind, ArmKind::Plain);

    assert_eq!(g.arms[1].variant_name, "Code");
    assert_eq!(g.arms[1].binders, vec!["arg0".to_string()]);
    assert_eq!(g.arms[1].exc_name, "Code");
    assert_eq!(g.arms[1].message, "code {}");
    assert_eq!(g.arms[1].kind, ArmKind::Positional);

    assert_eq!(g.arms[2].variant_name, "Bad");
    assert_eq!(g.arms[2].binders, vec!["name".to_string()]);
    assert_eq!(g.arms[2].exc_name, "Bad");
    assert_eq!(g.arms[2].message, "bad {name}");
    assert_eq!(g.arms[2].kind, ArmKind::Named);
}

#[test]
fn inherits_argument_is_split_into_module_and_exception() {
    let input = EnumSpec {
        name: "MyError".to_string(),
        variants: vec![variant(
            "Base",
            FieldsKind::Unit,
            Some("boom"),
            Some(BaseAttr {
                module: LitValue::Str("errors".to_string()),
                inherits: Some(LitValue::Str("pyo3.PyValueError".to_string())),
            }),
        )],
    };
    let g = pyexc_macro(&input).unwrap();
    // MODULE.EXCEPTION: the first dotted piece is the module the import comes
    // from, the second the exception the root class inherits from.
    assert_eq!(
        g.base_use,
        Some(UseBase { module: "pyo3".to_string(), exception: "PyValueError".to_string() })
    );
    assert_eq!(g.exceptions.len(), 1);
    assert_eq!(g.exceptions[0].name, "MyError");
    assert_eq!(g.exceptions[0].base, "PyValueError");
}

#[test]
fn variant_without_format_is_rejected() {
    // The conversion must map every variant, so a variant without a message
    // template is an authoring mistake, not a silently skipped arm.
    let input = EnumSpec {
        name: "MyError".to_string(),
        variants: vec![
            variant("Base", FieldsKind::Unit, None, plain_base()),
            variant("Loud", FieldsKind::Unit, Some("loud"), None),
        ],
    };
    assert_eq!(pyexc_macro(&input).unwrap_err(), DeriveError::MissingFormat);
    let input = EnumSpec {
        name: "MyError".to_string(),
        variants: vec![
            variant("Base", FieldsKind::Unit, Some("base"), plain_base()),
            variant("Quiet", FieldsKind::Unit, None, None),
        ],
    };
    assert_eq!(pyexc_macro(&input).unwrap_err(), DeriveError::MissingFormat);
}

#[test]
fn arg_binders_count_up_per_field() {
    let input = EnumSpec {
        name: "E".to_string(),
        variants: vec![
            variant("B", FieldsKind::Unit, Some("b"), plain_base()),
            variant("Pair", FieldsKind::Unnamed(3), Some("{} {} {}"), None),
        ],
    };
    let g = pyexc_macro(&input).unwrap();
    assert_eq!(
        g.arms[1].binders,
        vec!["arg0".to_string(), "arg1".to_string(), "arg2".to_string()]
    );
}

#[test]
fn empty_enum_is_rejected() {
    let input = EnumSpec { name: "E".to_string(), variants: vec![] };
    assert_eq!(pyexc_macro(&input).unwrap_err(), DeriveError::EmptyEnum);
}

#[test]
fn missing_base_is_rejected() {
    let input = EnumSpec {
        name: "E".to_string(),
        variants: vec![variant("A", FieldsKind::Unit, Some("a"), None)],
    };
    assert_eq!(pyexc_macro(&input).unwrap_err(), DeriveError::MissingBase);
}

#[test]
fn two_bases_are_rejected() {
    let input = EnumSpec {
        name: "E".to_string(),
        variants: vec![
            variant("A", FieldsKind::Unit, Some("a"), plain_base()),
            variant("B", FieldsKind::Unit, Some("b"), plain_base()),
        ],
    };
    assert_eq!(pyexc_macro(&input).unwrap_err(), DeriveError::DuplicateBase);
}

#[test]
fn non_string_module_is_rejected() {
    let input = EnumSpec {
        name: "E".to_string(),
        variants: vec![variant(
            "A",
            FieldsKind::Unit,
            Some("a"),
            Some(BaseAttr { module: LitValue::NotStr, inherits: None }),
        )],
    };
    assert_eq!(pyexc_macro(&input).unwrap_err(), DeriveError::ModuleNotString);
}

#[test]
fn non_string_inherits_is_rejected() {
    let input = EnumSpec {
        name: "E".to_string(),
        variants: vec![variant(
            "A",
            FieldsKind::Unit,
            Some("a"),
            Some(BaseAttr {
                module: LitValue::Str("m".to_string()),
                inherits: Some(LitValue::NotStr),
            }),
        )],
    };
    assert_eq!(pyexc_macro(&input).unwrap_err(), DeriveError::InheritsNotString);
}

#[test]
fn non_string_inherits_wins_over_duplicate_base() {
    let input = EnumSpec {
        name: "E".to_string(),
        variants: vec![
            variant("A", FieldsKind::Unit, Some("a"), plain_base()),
            variant(
                "B",
                FieldsKind::Unit,
                Some("b"),
                Some(BaseAttr {
                    module: LitValue::Str("m".to_string()),
                    inherits: Some(LitValue::NotStr),
                }),
            ),
        ],
    };
    assert_eq!(pyexc_macro(&input).unwrap_err(), DeriveError::InheritsNotString);
}

#[test]
fn one_piece_inherits_is_rejected() {
    let input = EnumSpec {
        name: "E".to_string(),
        variants: vec![variant(
            "A",
            FieldsKind::Unit,
            Some("a"),
            Some(BaseAttr {
                module: LitValue::Str("m".to_string()),
                inherits: Some(LitValue::Str("NoDotsHere".to_string())),
            }),
        )],
    };
    assert_eq!(pyexc_macro(&input).unwrap_err(), DeriveError::MalformedInherits);
}

#[test]
fn three_piece_inherits_is_rejected() {
    let input = EnumSpec {
        name: "E".to_string(),
        variants: vec![variant(
            "A",
            FieldsKind::Unit,
            Some("a"),
            Some(BaseAttr {
                module: LitValue::Str("m".to_string()),
                inherits: Some(LitValue::Str("a.b.c".to_string())),
            }),
        )],
    };
    assert_eq!(pyexc_macro(&input).unwrap_err(), DeriveError::MalformedInherits);
}

#[test]
fn unterminated_placeholder_is_rejected() {
    let input = EnumSpec {
        name: "E".to_string(),
        variants: vec![
            variant("B", FieldsKind::Unit, Some("b"), plain_base()),
            variant("A", FieldsKind::Unnamed(1), Some("oops {"), None),
        ],
    };
    assert_eq!(pyexc_macro(&input).unwrap_err(), DeriveError::InvalidFormatString);
}

#[test]
fn arity_mismatch_is_rejected() {
    let input = EnumSpec {
        name: "E".to_string(),
        variants: vec![
            variant("B", FieldsKind::Unit, Some("b"), plain_base()),
            variant("A", FieldsKind::Unnamed(2), Some("only {}"), None),
        ],
    };
    assert_eq!(pyexc_macro(&input).unwrap_err(), DeriveError::UnmatchedPlaceholders);
}

#[test]
fn explicit_positional_placeholders_are_accepted_when_they_cover_the_fields() {
    let input = EnumSpec {
        name: "E".to_string(),
        variants: vec![
            variant("B", FieldsKind::Unit, Some("b"), plain_base()),
            variant("A", FieldsKind::Unnamed(1), Some("{0} and again {0}"), None),
        ],
    };
    let g = pyexc_macro(&input).unwrap();
    assert_eq!(g.arms[1].binders, vec!["arg0".to_string()]);

    let input = EnumSpec {
        name: "E".to_string(),
        variants: vec![
            variant("B", FieldsKind::Unit, Some("b"), plain_base()),
            variant("A", FieldsKind::Unnamed(2), Some("{1} before {0}"), None),
        ],
    };
    let g = pyexc_macro(&input).unwrap();
    assert_eq!(g.arms[1].binders, vec!["arg0".to_string(), "arg1".to_string()]);

    let input = EnumSpec {
        name: "E".to_string(),
        variants: vec![
            variant("B", FieldsKind::Unit, Some("b"), plain_base()),
            variant("A", FieldsKind::Unnamed(2), Some("{} and {1}"), None),
        ],
    };
    assert!(pyexc_macro(&input).is_ok());
}

#[test]
fn explicit_positional_placeholders_must_stay_in_range_and_cover_every_field() {
    // An index at or past the arity.
    let input = EnumSpec {
        name: "E".to_string(),
        variants: vec![
            variant("B", FieldsKind::Unit, Some("b"), plain_base()),
            variant("A", FieldsKind::Unnamed(1), Some("{1}"), None),
        ],
    };
    assert_eq!(pyexc_macro(&input).unwrap_err(), DeriveError::UnmatchedPlaceholders);
    // A field that no placeholder interpolates.
    let input = EnumSpec {
        name: "E".to_string(),
        variants: vec![
            variant("B", FieldsKind::Unit, Some("b"), plain_base()),
            variant("A", FieldsKind::Unnamed(2), Some("{0}"), None),
        ],
    };
    assert_eq!(pyexc_macro(&input).unwrap_err(), DeriveError::UnmatchedPlaceholders);
    // More implicit placeholders than fields.
    let input = EnumSpec {
        name: "E".to_string(),
        variants: vec![
            variant("B", FieldsKind::Unit, Some("b"), plain_base()),
            variant("A", FieldsKind::Unnamed(1), Some("{} {}"), None),
        ],
    };
    assert_eq!(pyexc_macro(&input).unwrap_err(), DeriveError::UnmatchedPlaceholders);
}

#[test]
fn record_variant_must_use_every_field() {
    let input = EnumSpec {
        name: "E".to_string(),
        variants: vec![
            variant("B", FieldsKind::Unit, Some("b"), plain_base()),
            variant(
                "A",
                FieldsKind::Named(vec!["left".to_string(), "right".to_string()]),
                Some("only {left}"),
                None,
            ),
        ],
    };
    assert_eq!(pyexc_macro(&input).unwrap_err(), DeriveError::UnmatchedPlaceholders);
}

#[test]
fn unknown_field_placeholder_is_rejected() {
    let input = EnumSpec {
        name: "E".to_string(),
        variants: vec![
            variant("B", FieldsKind::Unit, Some("b"), plain_base()),
            variant(
                "A",
                FieldsKind::Named(vec!["left".to_string()]),
                Some("{right}"),
                None,
            ),
        ],
    };
    assert_eq!(pyexc_macro(&input).unwrap_err(), DeriveError::UnmatchedPlaceholders);
}

#[test]
fn named_placeholder_in_tuple_variant_is_rejected() {
    let input = EnumSpec {
        name: "E".to_string(),
        variants: vec![
            variant("B", FieldsKind::Unit, Some("b"), plain_base()),
            variant("A", FieldsKind::Unnamed(1), Some("{name}"), None),
        ],
    };
    assert_eq!(pyexc_macro(&input).unwrap_err(), DeriveError::UnmatchedPlaceholders);
}

#[test]
fn implicit_placeholder_in_record_variant_is_rejected() {
    let input = EnumSpec {
        name: "E".to_string(),
        variants: vec![
            variant("B", FieldsKind::Unit, Some("b"), plain_base()),
            variant("A", FieldsKind::Named(vec!["x".to_string()]), Some("{} {x}"), None),
        ],
    };
    assert_eq!(pyexc_macro(&input).unwrap_err(), DeriveError::UnmatchedPlaceholders);
}

#[test]
fn base_variant_with_fields_is_expanded_like_any_other() {
    let input = EnumSpec {
        name: "E".to_string(),
        variants: vec![variant("B", FieldsKind::Unnamed(2), Some("{} then {}"), plain_base())],
    };
    let g = pyexc_macro(&input).unwrap();
    assert_eq!(g.arms[0].exc_name, "E");
    assert_eq!(g.arms[0].binders, vec!["arg0".to_string(), "arg1".to_string()]);
    assert_eq!(g.arms[0].kind, ArmKind::Positional);
    assert_eq!(g.exceptions[0].name, "E");
    assert_eq!(g.exceptions[0].base, "PyException");
}

#[test]
fn unit_variant_message_is_taken_verbatim() {
    // A unit variant's message is not interpolated, so braces in it are not
    // validated.
    let input = EnumSpec {
        name: "E".to_string(),
        variants: vec![variant("B", FieldsKind::Unit, Some("brace { only"), plain_base())],
    };
    let g = pyexc_macro(&input).unwrap();
    assert_eq!(g.arms[0].message, "brace { only");
    assert_eq!(g.arms[0].kind, ArmKind::Plain);
}

#[test]
fn error_messages_match_the_diagnostics() {
    assert_eq!(DeriveError::EmptyEnum.message(), "Cannot derive `Routes` on empty enum");
    assert_eq!(DeriveError::MissingBase.message(), "There must be one base exception");
    assert_eq!(DeriveError::DuplicateBase.message(), "There can only be one base exception.");
    assert_eq!(
        DeriveError::ModuleNotString.message(),
        "`module` argument of `base` must be a string."
    );
    assert_eq!(
        DeriveError::InheritsNotString.message(),
        "`inherits` argument of `base` must be a string."
    );
    assert_eq!(
        DeriveError::MalformedInherits.message(),
        "`inherits` argument of `base` must follow `MODULE.EXCEPTION` format."
    );
    assert_eq!(
        DeriveError::MissingFormat.message(),
        "every variant must carry a `format` attribute."
    );
}
