use ctflag::coerce::CustomParser;
use ctflag::coerce::FromArg;
use ctflag::coerce::FromArgError;
use ctflag::coerce::VerbatimCustom;
use ctflag::coerce::bool_from_arg;
use ctflag::coerce::option_from_arg;
use ctflag::numeric::i64_to_string;
use ctflag::numeric::parse_i64;
use ctflag::parser::FlagError;
use ctflag::parser::ParseErrorStruct;

#[test]
fn bool_from_arg_bare_is_true() {
    assert_eq!(bool_from_arg(None), Ok(true));
    assert_eq!(bool_from_arg(Some("true")), Ok(true));
    assert_eq!(bool_from_arg(Some("false")), Ok(false));
    assert!(bool_from_arg(Some("yes")).is_err());
    assert!(bool_from_arg(Some("True")).is_err());
}

#[test]
fn option_from_arg_wraps_success() {
    assert_eq!(option_from_arg::<i64>("12"), Ok(Some(12)));
    assert!(option_from_arg::<i64>("twelve").is_err());
    assert_eq!(option_from_arg::<bool>("false"), Ok(Some(false)));
}

#[test]
fn from_arg_for_integers() {
    assert_eq!(i64::from_arg("-7"), Ok(-7));
    assert!(i64::from_arg("7.5").is_err());
}

#[test]
fn parse_i64_handles_bounds() {
    assert_eq!(parse_i64("9223372036854775807"), Some(i64::MAX));
    assert_eq!(parse_i64("-9223372036854775808"), Some(i64::MIN));
    assert_eq!(parse_i64("9223372036854775808"), None);
    assert_eq!(parse_i64("-9223372036854775809"), None);
    assert_eq!(parse_i64("+0"), Some(0));
    assert_eq!(parse_i64(""), None);
    assert_eq!(parse_i64("-"), None);
}

#[test]
fn i64_to_string_round_trips() {
    for v in [0i64, 7, -7, 42, 1000, i64::MAX, i64::MIN] {
        assert_eq!(i64_to_string(v), format!("{}", v));
        assert_eq!(parse_i64(&i64_to_string(v)), Some(v));
    }
}

#[test]
fn from_arg_error_carries_message() {
    let plain = FromArgError::new();
    assert!(plain.message().is_none());
    let chatty = FromArgError::with_message("not a colour");
    assert_eq!(chatty.message().map(|m| m.as_str()), Some("not a colour"));

    let e = FlagError::ParseError(ParseErrorStruct {
        type_str: String::from("colour"),
        input: String::from("zzz"),
        src: chatty,
    });
    assert_eq!(
        e.message(),
        "failed to parse \"zzz\" as colour type: not a colour"
    );
}

#[test]
fn verbatim_custom_accepts_anything() {
    let c = VerbatimCustom;
    assert_eq!(
        c.coerce_custom("tag", "anything at all"),
        Ok(String::from("anything at all"))
    );
    assert_eq!(c.default_custom("tag"), String::new());
}
