use ctflag::tokenizer::Arg;
use ctflag::tokenizer::FlagIterator;

#[test]
fn test_flag_iterator() {
    let mut iter = FlagIterator::from_args(vec![
        String::from("foo"),
        String::from("--flag=true"),
        String::from("--two"),
        String::from("true"),
    ]);

    assert!(match iter.next() {
        Some(Arg::Arg(arg)) => arg == "foo",
        _ => false,
    });
    assert!(match iter.next() {
        Some(Arg::Flag(f)) =>
            f.key == "--flag"
                && match &f.val {
                    Some(val) => val == "true",
                    _ => false,
                },
        _ => false,
    });
    assert!(match iter.next() {
        Some(Arg::Flag(f)) => f.key == "--two" && matches!(&f.val, None),
        _ => false,
    });
    assert!(match iter.next() {
        Some(Arg::Arg(arg)) => arg == "true",
        _ => false,
    });
    assert!(match iter.next() {
        None => true,
        _ => false,
    });
}

#[test]
fn next_arg_takes_next_raw_argument_verbatim() {
    let mut iter = FlagIterator::from_args(vec![
        String::from("--a"),
        String::from("--b"),
        String::from("plain"),
    ]);
    // The lookahead consumes the next raw element whatever its shape.
    assert_eq!(iter.next_arg(), Some(String::from("--a")));
    assert_eq!(iter.next_arg(), Some(String::from("--b")));
    assert_eq!(iter.next_arg(), Some(String::from("plain")));
    assert_eq!(iter.next_arg(), None);
}

#[test]
fn flag_splits_at_first_equals() {
    let mut iter = FlagIterator::from_args(vec![String::from("--kv=a=b=c")]);
    assert!(match iter.next() {
        Some(Arg::Flag(f)) =>
            f.key == "--kv"
                && match &f.val {
                    Some(val) => val == "a=b=c",
                    _ => false,
                },
        _ => false,
    });
}

#[test]
fn flag_with_trailing_equals_has_empty_inline_value() {
    let mut iter = FlagIterator::from_args(vec![String::from("--empty=")]);
    assert!(match iter.next() {
        Some(Arg::Flag(f)) =>
            f.key == "--empty"
                && match &f.val {
                    Some(val) => val == "",
                    _ => false,
                },
        _ => false,
    });
}
