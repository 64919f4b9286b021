use ctflag::coerce::VerbatimCustom;
use ctflag::parser::FlagError;
use ctflag::parser::ParsedArguments;
use ctflag::parser::parse;
use ctflag::schema::Schema;
use ctflag::schema::SchemaBuilder;
use ctflag::schema::SchemaError;
use ctflag::value::BaseKind;
use ctflag::value::BaseValue;
use ctflag::value::TypeKind;
use ctflag::value::Value;

fn args(list: &[&str]) -> Vec<String> {
    list.iter().map(|s| String::from(*s)).collect()
}

fn demo_schema() -> Schema {
    let mut b = SchemaBuilder::new();
    b.register(String::from("active"), TypeKind::Bool, None, None, None, None);
    b.register(
        String::from("count"),
        TypeKind::Int,
        Some(Value::Int(42)),
        None,
        None,
        Some(String::from("how many")),
    );
    b.register(
        String::from("name"),
        TypeKind::Text,
        None,
        Some('n'),
        None,
        None,
    );
    b.register(String::from("ratio"), TypeKind::Float, None, None, None, None);
    b.register(
        String::from("limit"),
        TypeKind::Optional(BaseKind::Int),
        None,
        None,
        None,
        None,
    );
    b.register(String::from("tag"), TypeKind::Custom, None, None, None, None);
    b.finalize().unwrap()
}

fn field_value(p: &ParsedArguments, name: &str) -> Value {
    for (n, v) in &p.values {
        if n == name {
            return v.clone();
        }
    }
    panic!("no field named {}", name);
}

#[test]
fn defaults_fill_every_field() {
    let s = demo_schema();
    let p = parse(&s, &args(&["prog"]), &VerbatimCustom).unwrap();
    assert_eq!(field_value(&p, "active"), Value::Bool(false));
    assert_eq!(field_value(&p, "count"), Value::Int(42));
    assert_eq!(field_value(&p, "name"), Value::Text(String::new()));
    assert_eq!(field_value(&p, "ratio"), Value::Float(String::from("0.0")));
    assert_eq!(field_value(&p, "limit"), Value::Optional(None));
    assert_eq!(field_value(&p, "tag"), Value::Custom(String::new()));
    assert_eq!(p.positionals, args(&["prog"]));
}

#[test]
fn defaults_with_empty_argument_vector() {
    let s = demo_schema();
    let p = parse(&s, &Vec::new(), &VerbatimCustom).unwrap();
    assert_eq!(field_value(&p, "count"), Value::Int(42));
    assert!(p.positionals.is_empty());
}

#[test]
fn inline_and_split_forms_agree() {
    let s = demo_schema();
    let inline = parse(&s, &args(&["prog", "--count=3"]), &VerbatimCustom);
    let split = parse(&s, &args(&["prog", "--count", "3"]), &VerbatimCustom);
    assert_eq!(inline, split);
    assert_eq!(field_value(&inline.unwrap(), "count"), Value::Int(3));
}

#[test]
fn bool_bare_flag_sets_true() {
    let s = demo_schema();
    let p = parse(&s, &args(&["prog", "--active"]), &VerbatimCustom).unwrap();
    assert_eq!(field_value(&p, "active"), Value::Bool(true));
}

#[test]
fn bool_inline_false() {
    let s = demo_schema();
    let p = parse(&s, &args(&["prog", "--active=false"]), &VerbatimCustom).unwrap();
    assert_eq!(field_value(&p, "active"), Value::Bool(false));
}

#[test]
fn bool_bad_text_is_coercion_error() {
    let s = demo_schema();
    let e = parse(&s, &args(&["prog", "--active=notabool"]), &VerbatimCustom).unwrap_err();
    match e {
        FlagError::ParseError(p) => {
            assert_eq!(p.type_str, "bool");
            assert_eq!(p.input, "notabool");
        }
        other => panic!("unexpected error {:?}", other),
    }
}

#[test]
fn unknown_flag_fails_fast() {
    let s = demo_schema();
    let e = parse(&s, &args(&["prog", "--nope"]), &VerbatimCustom).unwrap_err();
    assert_eq!(e, FlagError::UnrecognizedArg(String::from("--nope")));
}

#[test]
fn missing_value_fails() {
    let s = demo_schema();
    let e = parse(&s, &args(&["prog", "--name"]), &VerbatimCustom).unwrap_err();
    assert_eq!(e, FlagError::MissingValue(String::from("name")));
}

#[test]
fn positionals_pass_through_interleaved() {
    let s = demo_schema();
    let p = parse(
        &s,
        &args(&["prog", "a", "--active", "b", "--count=3", "c"]),
        &VerbatimCustom,
    )
    .unwrap();
    assert_eq!(field_value(&p, "active"), Value::Bool(true));
    assert_eq!(field_value(&p, "count"), Value::Int(3));
    assert_eq!(p.positionals, args(&["prog", "a", "b", "c"]));
}

#[test]
fn program_name_is_always_positional_even_if_flag_shaped() {
    let s = demo_schema();
    let p = parse(&s, &args(&["--count=3"]), &VerbatimCustom).unwrap();
    // The first raw argument is never matched as a flag.
    assert_eq!(field_value(&p, "count"), Value::Int(42));
    assert_eq!(p.positionals, args(&["--count=3"]));
}

#[test]
fn short_alias_equivalent_to_long_name() {
    let s = demo_schema();
    let short = parse(&s, &args(&["prog", "-n=zoe"]), &VerbatimCustom);
    let long = parse(&s, &args(&["prog", "--name=zoe"]), &VerbatimCustom);
    assert_eq!(short, long);
    assert_eq!(field_value(&short.unwrap(), "name"), Value::Text(String::from("zoe")));
}

#[test]
fn lookahead_consumes_flag_shaped_value() {
    let s = demo_schema();
    // A valueless non-boolean flag takes the next raw element whatever its
    // shape.
    let p = parse(&s, &args(&["prog", "--name", "--active"]), &VerbatimCustom).unwrap();
    assert_eq!(field_value(&p, "name"), Value::Text(String::from("--active")));
    assert_eq!(field_value(&p, "active"), Value::Bool(false));
}

#[test]
fn optional_field_wraps_value() {
    let s = demo_schema();
    let p = parse(&s, &args(&["prog", "--limit=7"]), &VerbatimCustom).unwrap();
    assert_eq!(
        field_value(&p, "limit"),
        Value::Optional(Some(BaseValue::Int(7)))
    );
}

#[test]
fn custom_field_uses_registered_coercion() {
    let s = demo_schema();
    let p = parse(&s, &args(&["prog", "--tag=xyz"]), &VerbatimCustom).unwrap();
    assert_eq!(field_value(&p, "tag"), Value::Custom(String::from("xyz")));
}

#[test]
fn int_coercion_bounds() {
    let s = demo_schema();
    let p = parse(
        &s,
        &args(&["prog", "--count=-9223372036854775808"]),
        &VerbatimCustom,
    )
    .unwrap();
    assert_eq!(field_value(&p, "count"), Value::Int(i64::MIN));
    let e = parse(
        &s,
        &args(&["prog", "--count=9223372036854775808"]),
        &VerbatimCustom,
    )
    .unwrap_err();
    match e {
        FlagError::ParseError(p) => {
            assert_eq!(p.type_str, "int");
            assert_eq!(p.input, "9223372036854775808");
        }
        other => panic!("unexpected error {:?}", other),
    }
}

#[test]
fn int_coercion_rejects_junk() {
    let s = demo_schema();
    assert!(matches!(
        parse(&s, &args(&["prog", "--count=12x"]), &VerbatimCustom),
        Err(FlagError::ParseError(_))
    ));
    assert!(matches!(
        parse(&s, &args(&["prog", "--count="]), &VerbatimCustom),
        Err(FlagError::ParseError(_))
    ));
    assert_eq!(
        field_value(
            &parse(&s, &args(&["prog", "--count=+17"]), &VerbatimCustom).unwrap(),
            "count"
        ),
        Value::Int(17)
    );
}

#[test]
fn float_coercion_keeps_valid_text() {
    let s = demo_schema();
    for good in ["1.5e3", "inf", "Infinity", "-NaN", ".5", "3.", "+0.25", "7"] {
        let raw = format!("--ratio={}", good);
        let p = parse(&s, &args(&["prog", &raw]), &VerbatimCustom).unwrap();
        assert_eq!(field_value(&p, "ratio"), Value::Float(String::from(good)));
    }
    for bad in ["1.2.3", "e5", "--", "1e", "nanx", ""] {
        let raw = format!("--ratio={}", bad);
        assert!(matches!(
            parse(&s, &args(&["prog", &raw]), &VerbatimCustom),
            Err(FlagError::ParseError(_))
        ));
    }
}

#[test]
fn error_messages_match_wording() {
    let s = demo_schema();
    let e = parse(&s, &args(&["prog", "--count=zz"]), &VerbatimCustom).unwrap_err();
    assert_eq!(e.message(), "failed to parse \"zz\" as int type");
    let e = parse(&s, &args(&["prog", "--name"]), &VerbatimCustom).unwrap_err();
    assert_eq!(e.message(), "missing value for argument \"name\"");
    let e = parse(&s, &args(&["prog", "--zzz"]), &VerbatimCustom).unwrap_err();
    assert_eq!(e.message(), "unrecognized argument \"--zzz\"");
}

#[test]
fn schema_rejects_optional_with_default() {
    let mut b = SchemaBuilder::new();
    b.register(
        String::from("limit"),
        TypeKind::Optional(BaseKind::Int),
        Some(Value::Optional(Some(BaseValue::Int(3)))),
        None,
        None,
        None,
    );
    assert_eq!(
        b.finalize().unwrap_err(),
        SchemaError::OptionalDefault(String::from("limit"))
    );
}

#[test]
fn schema_rejects_mismatched_default() {
    let mut b = SchemaBuilder::new();
    b.register(
        String::from("count"),
        TypeKind::Int,
        Some(Value::Bool(true)),
        None,
        None,
        None,
    );
    assert_eq!(
        b.finalize().unwrap_err(),
        SchemaError::DefaultTypeMismatch(String::from("count"))
    );
}

#[test]
fn schema_rejects_duplicate_long_name() {
    let mut b = SchemaBuilder::new();
    b.register(String::from("x"), TypeKind::Bool, None, None, None, None);
    b.register(String::from("x"), TypeKind::Int, None, None, None, None);
    assert_eq!(
        b.finalize().unwrap_err(),
        SchemaError::DuplicateLongName(String::from("x"))
    );
}

#[test]
fn schema_rejects_duplicate_short_alias() {
    let mut b = SchemaBuilder::new();
    b.register(String::from("x"), TypeKind::Bool, None, Some('a'), None, None);
    b.register(String::from("y"), TypeKind::Int, None, Some('a'), None, None);
    assert_eq!(b.finalize().unwrap_err(), SchemaError::DuplicateShortAlias('a'));
}

#[test]
fn schema_rejects_empty_field_list() {
    let b = SchemaBuilder::new();
    assert_eq!(b.finalize().unwrap_err(), SchemaError::EmptySchema);
}

#[test]
fn schema_error_messages_match_wording() {
    let mut b = SchemaBuilder::new();
    b.register(String::from("x"), TypeKind::Bool, None, Some('a'), None, None);
    b.register(String::from("y"), TypeKind::Int, None, Some('a'), None, None);
    assert_eq!(b.finalize().unwrap_err().message(), "duplicate short alias 'a'");
    assert_eq!(
        SchemaError::EmptySchema.message(),
        "schema must have at least one field"
    );
    assert_eq!(
        SchemaError::OptionalDefault(String::from("limit")).message(),
        "default value not allowed with optional field \"limit\""
    );
    assert_eq!(
        SchemaError::DefaultTypeMismatch(String::from("count")).message(),
        "default value for field \"count\" does not match its type"
    );
    assert_eq!(
        SchemaError::DuplicateLongName(String::from("x")).message(),
        "duplicate flag name \"x\""
    );
}

#[test]
fn get_finds_field_by_name() {
    let s = demo_schema();
    let p = parse(&s, &args(&["prog", "--count=5"]), &VerbatimCustom).unwrap();
    assert_eq!(p.get("count"), Some(&Value::Int(5)));
    assert_eq!(p.get("absent"), None);
}
