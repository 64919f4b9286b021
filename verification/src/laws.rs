//! The engine's laws: properties of parsing, validation and rendering that
//! hold for every schema and every argument list, stated and proved over the
//! specification functions the executable contracts use.

use vstd::prelude::*;

use crate::coerce::CustomParser;
use crate::parser::EngineState;
use crate::parser::field_matches_key;
use crate::parser::init_vals;
use crate::parser::lemma_lookup_skip;
use crate::parser::long_form;
use crate::parser::lookup;
use crate::parser::parse_loop;
use crate::parser::parse_spec;
use crate::parser::short_form;
use crate::parser::start_state;
use crate::schema::FieldV;
use crate::schema::check_from;
use crate::schema::field_issue;
use crate::schema::schema_check;
use crate::parser::FlagErrorV;
use crate::parser::ParseErrorStructV;
use crate::parser::ParsedV;
use crate::parser::coerce_step;
use crate::render::col_width;
use crate::render::col_width_to;
use crate::render::label_width;
use crate::render::lemma_col_width_bound;
use crate::render::line_of;
use crate::render::lines_to;
use crate::render::render_spec;
use crate::tokenizer::flag_key;
use crate::tokenizer::flag_val;
use crate::tokenizer::lemma_find_eq_skip;
use crate::tokenizer::find_eq_from;
use crate::tokenizer::tok_is_flag;
use crate::value::ValueV;
use crate::value::kind_name;

verus! {

/// Idempotence of defaults: parsing an argument list that holds nothing
/// beyond the program name leaves every field at its declared default or its
/// zero value, with the program name as the only positional.
pub proof fn lemma_parse_defaults<C: CustomParser>(
    fields: Seq<FieldV>,
    custom: &C,
    args: Seq<Seq<char>>,
)
    requires
        args.len() <= 1,
    ensures
        match parse_spec(fields, custom, args) {
            Ok(p) => p.values == Seq::new(
                fields.len(),
                |k: int| (fields[k].name, init_vals(fields, custom)[k]),
            ) && p.positionals == (if args.len() == 1 {
                seq![args[0]]
            } else {
                Seq::<Seq<char>>::empty()
            }),
            Err(_) => false,
        },
{
    let st0 = start_state(fields, custom, args);
    assert(parse_loop(fields, custom, args, 1, st0) == Ok::<EngineState, crate::parser::FlagErrorV>(
        st0,
    ));
    match parse_spec(fields, custom, args) {
        Ok(p) => {
            assert(p.values =~= Seq::new(
                fields.len(),
                |k: int| (fields[k].name, init_vals(fields, custom)[k]),
            ));
        },
        Err(_) => {
            assert(false);
        },
    }
}

/// A key that is appended an `=` and a value splits back into that key and
/// that inline value.
pub proof fn lemma_key_inline(key: Seq<char>, v: Seq<char>)
    requires
        key.len() > 0,
        key[0] == '-',
        forall|i: int| 0 <= i < key.len() ==> key[i] != '=',
    ensures
        tok_is_flag(key + seq!['='] + v),
        flag_key(key + seq!['='] + v) == key,
        flag_val(key + seq!['='] + v) == Some(v),
{
    let tok = key + seq!['='] + v;
    lemma_find_eq_skip(tok, 0, key.len() as int);
    assert(find_eq_from(tok, key.len() as int) == Some(key.len() as int));
    assert(tok.subrange(0, key.len() as int) =~= key);
    assert(tok.subrange(key.len() as int + 1, tok.len() as int) =~= v);
}

/// A key without `=` is a whole flag token: itself the key, no inline value.
pub proof fn lemma_key_bare(key: Seq<char>)
    requires
        key.len() > 0,
        key[0] == '-',
        forall|i: int| 0 <= i < key.len() ==> key[i] != '=',
    ensures
        tok_is_flag(key),
        flag_key(key) == key,
        flag_val(key) is None,
{
    lemma_find_eq_skip(key, 0, key.len() as int);
}

/// The long form of a name without `=` is itself a key without `=`, starting
/// with `-`.
pub proof fn lemma_long_form_key(name: Seq<char>)
    requires
        forall|i: int| 0 <= i < name.len() ==> name[i] != '=',
    ensures
        long_form(name).len() == name.len() + 2,
        long_form(name)[0] == '-',
        long_form(name)[1] == '-',
        forall|i: int| 0 <= i < long_form(name).len() ==> long_form(name)[i] != '=',
{
    reveal_strlit("--");
    assert(forall|i: int|
        0 <= i < long_form(name).len() ==> long_form(name)[i] != '=') by {
        assert forall|i: int| 0 <= i < long_form(name).len() implies long_form(name)[i]
            != '=' by {
            if i >= 2 {
                assert(long_form(name)[i] == name[i - 2]);
            }
        }
    }
}

/// Unknown flag fails fast: an argument list whose second element is a flag
/// token matching no field yields exactly `UnrecognizedArg` with that key, and
/// no result is produced.
pub proof fn lemma_unrecognized_flag<C: CustomParser>(
    fields: Seq<FieldV>,
    custom: &C,
    prog: Seq<char>,
    tok: Seq<char>,
)
    requires
        tok_is_flag(tok),
        lookup(fields, flag_key(tok)) is None,
    ensures
        parse_spec(fields, custom, seq![prog, tok]) == Err::<
            crate::parser::ParsedV,
            crate::parser::FlagErrorV,
        >(crate::parser::FlagErrorV::UnrecognizedArg(flag_key(tok))),
{
    let args = seq![prog, tok];
    let st0 = start_state(fields, custom, args);
    assert(args[1] == tok);
    assert(parse_loop(fields, custom, args, 1, st0) == Err::<
        EngineState,
        crate::parser::FlagErrorV,
    >(crate::parser::FlagErrorV::UnrecognizedArg(flag_key(tok))));
}

/// Missing value fails: a non-boolean field's flag given as the last argument
/// with no inline value yields exactly `MissingValue` with the field's name.
pub proof fn lemma_missing_value<C: CustomParser>(
    fields: Seq<FieldV>,
    custom: &C,
    prog: Seq<char>,
    j: int,
)
    requires
        0 <= j < fields.len(),
        !(fields[j].type_kind is Bool),
        forall|i: int| 0 <= i < fields[j].name.len() ==> fields[j].name[i] != '=',
        lookup(fields, long_form(fields[j].name)) == Some(j),
    ensures
        parse_spec(fields, custom, seq![prog, long_form(fields[j].name)]) == Err::<
            crate::parser::ParsedV,
            crate::parser::FlagErrorV,
        >(crate::parser::FlagErrorV::MissingValue(fields[j].name)),
{
    let key = long_form(fields[j].name);
    lemma_long_form_key(fields[j].name);
    lemma_key_bare(key);
    let args = seq![prog, key];
    let st0 = start_state(fields, custom, args);
    assert(args[1] == key);
    assert(parse_loop(fields, custom, args, 1, st0) == Err::<
        EngineState,
        crate::parser::FlagErrorV,
    >(crate::parser::FlagErrorV::MissingValue(fields[j].name)));
}

/// The parse result for an argument list of one flag that assigns value `v`
/// to field `j`: every other field at its initial value, the program name the
/// only positional.
pub open spec fn single_update_result<C: CustomParser>(
    fields: Seq<FieldV>,
    custom: &C,
    prog: Seq<char>,
    j: int,
    v: ValueV,
) -> ParsedV {
    ParsedV {
        values: Seq::new(
            fields.len(),
            |k: int| (fields[k].name, init_vals(fields, custom).update(j, v)[k]),
        ),
        positionals: seq![prog],
    }
}

/// Boolean bare-flag semantics: a boolean field's flag without a value sets
/// the field `true`; with an inline value it sets the parsed boolean, and an
/// inline value that is neither `true` nor `false` fails with a coercion
/// error naming the boolean type and the offending text.
pub proof fn lemma_bool_flag<C: CustomParser>(
    fields: Seq<FieldV>,
    custom: &C,
    prog: Seq<char>,
    j: int,
    raw: Option<Seq<char>>,
)
    requires
        0 <= j < fields.len(),
        fields[j].type_kind is Bool,
        forall|i: int| 0 <= i < fields[j].name.len() ==> fields[j].name[i] != '=',
        lookup(fields, long_form(fields[j].name)) == Some(j),
    ensures
        ({
            let key = long_form(fields[j].name);
            let tok = match raw {
                None => key,
                Some(s) => key + seq!['='] + s,
            };
            let r = parse_spec(fields, custom, seq![prog, tok]);
            match raw {
                None => r == Ok::<ParsedV, FlagErrorV>(
                    single_update_result(fields, custom, prog, j, ValueV::Bool(true)),
                ),
                Some(s) => if s == "true"@ {
                    r == Ok::<ParsedV, FlagErrorV>(
                        single_update_result(fields, custom, prog, j, ValueV::Bool(true)),
                    )
                } else if s == "false"@ {
                    r == Ok::<ParsedV, FlagErrorV>(
                        single_update_result(fields, custom, prog, j, ValueV::Bool(false)),
                    )
                } else {
                    r == Err::<ParsedV, FlagErrorV>(
                        FlagErrorV::ParseError(
                            ParseErrorStructV {
                                type_str: kind_name(crate::value::TypeKind::Bool),
                                input: s,
                                src: None,
                            },
                        ),
                    )
                },
            }
        }),
{
    let key = long_form(fields[j].name);
    lemma_long_form_key(fields[j].name);
    let tok = match raw {
        None => key,
        Some(s) => key + seq!['='] + s,
    };
    match raw {
        None => {
            lemma_key_bare(key);
        },
        Some(s) => {
            lemma_key_inline(key, s);
        },
    }
    let args = seq![prog, tok];
    let st0 = start_state(fields, custom, args);
    assert(args[1] == tok);
    let fv = flag_val(tok);
    match coerce_step(fields[j], fv, custom) {
        Ok(val) => {
            let up = EngineState { vals: st0.vals.update(j, val), positionals: st0.positionals };
            assert(parse_loop(fields, custom, args, 1, st0) == parse_loop(
                fields,
                custom,
                args,
                2,
                up,
            ));
            assert(parse_loop(fields, custom, args, 2, up) == Ok::<EngineState, FlagErrorV>(up));
            match parse_spec(fields, custom, args) {
                Ok(p) => {
                    assert(p.values =~= single_update_result(fields, custom, prog, j, val).values);
                    assert(p.positionals =~= seq![prog]);
                    assert(p == single_update_result(fields, custom, prog, j, val));
                },
                Err(_) => {
                    assert(false);
                },
            }
        },
        Err(e) => {
            assert(parse_loop(fields, custom, args, 1, st0) == Err::<EngineState, FlagErrorV>(e));
        },
    }
}

/// Round trip for inline and split form: for a non-boolean field, giving the
/// value inline after `=` and giving it as the next raw argument parse
/// identically, whatever the value's shape.
pub proof fn lemma_inline_split_equivalence<C: CustomParser>(
    fields: Seq<FieldV>,
    custom: &C,
    prog: Seq<char>,
    j: int,
    v: Seq<char>,
)
    requires
        0 <= j < fields.len(),
        !(fields[j].type_kind is Bool),
        forall|i: int| 0 <= i < fields[j].name.len() ==> fields[j].name[i] != '=',
        lookup(fields, long_form(fields[j].name)) == Some(j),
    ensures
        parse_spec(fields, custom, seq![prog, long_form(fields[j].name) + seq!['='] + v])
            == parse_spec(fields, custom, seq![prog, long_form(fields[j].name), v]),
{
    let key = long_form(fields[j].name);
    lemma_long_form_key(fields[j].name);
    lemma_key_inline(key, v);
    lemma_key_bare(key);
    let args1 = seq![prog, key + seq!['='] + v];
    let args2 = seq![prog, key, v];
    let st1 = start_state(fields, custom, args1);
    let st2 = start_state(fields, custom, args2);
    assert(st1 == st2);
    assert(args1[1] == key + seq!['='] + v);
    assert(args2[1] == key && args2[2] == v);
    match coerce_step(fields[j], Some(v), custom) {
        Ok(val) => {
            let up = EngineState { vals: st1.vals.update(j, val), positionals: st1.positionals };
            assert(parse_loop(fields, custom, args1, 1, st1) == parse_loop(
                fields,
                custom,
                args1,
                2,
                up,
            ));
            assert(parse_loop(fields, custom, args2, 1, st2) == parse_loop(
                fields,
                custom,
                args2,
                3,
                up,
            ));
            assert(parse_loop(fields, custom, args1, 2, up) == Ok::<EngineState, FlagErrorV>(up));
            assert(parse_loop(fields, custom, args2, 3, up) == Ok::<EngineState, FlagErrorV>(up));
        },
        Err(e) => {
            assert(parse_loop(fields, custom, args1, 1, st1) == Err::<EngineState, FlagErrorV>(e));
            assert(parse_loop(fields, custom, args2, 1, st2) == Err::<EngineState, FlagErrorV>(e));
        },
    }
}

/// Short-alias equivalence: when a field declares a short alias, giving a
/// value through `-x=...` and through `--name=...` parse identically.
pub proof fn lemma_short_alias_equivalence<C: CustomParser>(
    fields: Seq<FieldV>,
    custom: &C,
    prog: Seq<char>,
    j: int,
    c: char,
    v: Seq<char>,
)
    requires
        0 <= j < fields.len(),
        fields[j].short_alias == Some(c),
        c != '=',
        forall|i: int| 0 <= i < fields[j].name.len() ==> fields[j].name[i] != '=',
        lookup(fields, short_form(c)) == Some(j),
        lookup(fields, long_form(fields[j].name)) == Some(j),
    ensures
        parse_spec(fields, custom, seq![prog, short_form(c) + seq!['='] + v]) == parse_spec(
            fields,
            custom,
            seq![prog, long_form(fields[j].name) + seq!['='] + v],
        ),
{
    let skey = short_form(c);
    let lkey = long_form(fields[j].name);
    lemma_long_form_key(fields[j].name);
    lemma_key_inline(skey, v);
    lemma_key_inline(lkey, v);
    let args1 = seq![prog, skey + seq!['='] + v];
    let args2 = seq![prog, lkey + seq!['='] + v];
    let st1 = start_state(fields, custom, args1);
    let st2 = start_state(fields, custom, args2);
    assert(st1 == st2);
    assert(args1[1] == skey + seq!['='] + v);
    assert(args2[1] == lkey + seq!['='] + v);
    match coerce_step(fields[j], Some(v), custom) {
        Ok(val) => {
            let up = EngineState { vals: st1.vals.update(j, val), positionals: st1.positionals };
            assert(parse_loop(fields, custom, args1, 1, st1) == parse_loop(
                fields,
                custom,
                args1,
                2,
                up,
            ));
            assert(parse_loop(fields, custom, args2, 1, st2) == parse_loop(
                fields,
                custom,
                args2,
                2,
                up,
            ));
            assert(parse_loop(fields, custom, args1, 2, up) == Ok::<EngineState, FlagErrorV>(up));
            assert(parse_loop(fields, custom, args2, 2, up) == Ok::<EngineState, FlagErrorV>(up));
        },
        Err(e) => {
            assert(parse_loop(fields, custom, args1, 1, st1) == Err::<EngineState, FlagErrorV>(e));
            assert(parse_loop(fields, custom, args2, 1, st2) == Err::<EngineState, FlagErrorV>(e));
        },
    }
}

/// A field whose name is non-empty and `=`-free, with a short alias that is
/// neither `=` nor `-`: the shapes under which flag keys resolve unambiguously.
pub open spec fn plain_field(f: FieldV) -> bool {
    f.name.len() > 0 && (forall|i: int| 0 <= i < f.name.len() ==> f.name[i] != '=') && (match f
        .short_alias {
        Some(c) => c != '=' && c != '-',
        None => true,
    })
}

pub open spec fn plain_fields(fields: Seq<FieldV>) -> bool {
    forall|k: int| 0 <= k < fields.len() ==> plain_field(#[trigger] fields[k])
}

/// A field's long key resolves to that field when no earlier field shares its
/// name.
pub proof fn lemma_lookup_long(fields: Seq<FieldV>, j: int)
    requires
        plain_fields(fields),
        0 <= j < fields.len(),
        forall|k: int| 0 <= k < j ==> (#[trigger] fields[k]).name != fields[j].name,
    ensures
        lookup(fields, long_form(fields[j].name)) == Some(j),
{
    let key = long_form(fields[j].name);
    reveal_strlit("--");
    assert forall|k: int| 0 <= k < j implies !field_matches_key(#[trigger] fields[k], key) by {
        if key == long_form(fields[k].name) {
            assert(fields[k].name =~= fields[j].name) by {
                assert(long_form(fields[k].name).len() == 2 + fields[k].name.len());
                assert(key.len() == 2 + fields[j].name.len());
                assert(fields[k].name.len() == fields[j].name.len());
                assert(forall|i: int|
                    0 <= i < fields[k].name.len() ==> #[trigger] fields[k].name[i] == key[i + 2]
                        == fields[j].name[i]);
            }
        }
        match fields[k].short_alias {
            Some(c) => {
                assert(key.len() == fields[j].name.len() + 2 >= 3);
                assert(short_form(c).len() == 2);
            },
            None => {},
        }
    }
    lemma_lookup_skip(fields, key, 0, j);
    assert(field_matches_key(fields[j], key));
}

/// A short alias key resolves to its field when no earlier field shares the
/// alias.
pub proof fn lemma_lookup_short(fields: Seq<FieldV>, j: int, c: char)
    requires
        plain_fields(fields),
        0 <= j < fields.len(),
        fields[j].short_alias == Some(c),
        forall|k: int| 0 <= k < j ==> (#[trigger] fields[k]).short_alias != Some(c),
    ensures
        lookup(fields, short_form(c)) == Some(j),
{
    let key = short_form(c);
    reveal_strlit("--");
    assert forall|k: int| 0 <= k < j implies !field_matches_key(#[trigger] fields[k], key) by {
        assert(long_form(fields[k].name).len() == fields[k].name.len() + 2 >= 3);
        assert(key.len() == 2);
        match fields[k].short_alias {
            Some(a) => {
                if key == short_form(a) {
                    assert(a == short_form(a)[1] == c);
                }
            },
            None => {},
        }
    }
    lemma_lookup_skip(fields, key, 0, j);
    assert(field_matches_key(fields[j], key));
}

proof fn lemma_check_from_ok(fields: Seq<FieldV>, j: int, i: int)
    requires
        0 <= j <= i < fields.len(),
        check_from(fields, j) is Ok,
    ensures
        field_issue(fields, i) is None,
    decreases i - j,
{
    if j < i {
        lemma_check_from_ok(fields, j + 1, i);
    }
}

/// A schema that validates has no duplicate long name and no duplicate short
/// alias.
pub proof fn lemma_wf_unique(fields: Seq<FieldV>, j: int)
    requires
        schema_check(fields) is Ok,
        0 <= j < fields.len(),
    ensures
        forall|k: int| 0 <= k < j ==> (#[trigger] fields[k]).name != fields[j].name,
        fields[j].short_alias is Some ==> forall|k: int|
            0 <= k < j ==> (#[trigger] fields[k]).short_alias != fields[j].short_alias,
{
    lemma_check_from_ok(fields, 0, j);
}

/// Schema validation: a field list with an `Optional` field carrying a
/// default never validates, so no schema, and hence no parse attempt, can be
/// built from it.
pub proof fn lemma_optional_default_rejected(fields: Seq<FieldV>, i: int)
    requires
        0 <= i < fields.len(),
        fields[i].type_kind is Optional,
        fields[i].default is Some,
    ensures
        schema_check(fields) is Err,
{
    if schema_check(fields) is Ok {
        lemma_check_from_ok(fields, 0, i);
        assert(field_issue(fields, i) is None);
        assert(false);
    }
}

/// In a schema that validates, with plain names and aliases, each field's
/// long key, and its short key when it declares an alias, resolve to that
/// field and to no other.
pub proof fn lemma_wf_lookup(fields: Seq<FieldV>, j: int)
    requires
        schema_check(fields) is Ok,
        plain_fields(fields),
        0 <= j < fields.len(),
    ensures
        lookup(fields, long_form(fields[j].name)) == Some(j),
        match fields[j].short_alias {
            Some(c) => lookup(fields, short_form(c)) == Some(j),
            None => true,
        },
{
    lemma_wf_unique(fields, j);
    lemma_lookup_long(fields, j);
    match fields[j].short_alias {
        Some(c) => {
            lemma_lookup_short(fields, j, c);
        },
        None => {},
    }
}

proof fn lemma_col_width_attained(fields: Seq<FieldV>, i: int)
    requires
        0 < i <= fields.len(),
    ensures
        exists|k: int| 0 <= k < i && label_width(#[trigger] fields[k]) == col_width_to(fields, i),
    decreases i,
{
    if i == 1 {
        assert(col_width_to(fields, 0) == 0);
        assert(label_width(fields[0]) == col_width_to(fields, 1));
    } else {
        lemma_col_width_attained(fields, i - 1);
        if label_width(fields[i - 1]) > col_width_to(fields, i - 1) {
            assert(label_width(fields[i - 1]) == col_width_to(fields, i));
        } else {
            let k = choose|k: int|
                0 <= k < i - 1 && label_width(#[trigger] fields[k]) == col_width_to(fields, i - 1);
            assert(label_width(fields[k]) == col_width_to(fields, i));
        }
    }
}

/// Help formatting determinism: for a fixed schema the rendering is a fixed
/// string whose column width is the width of the longest label, reached by
/// some field, and no wider than every label.
pub proof fn lemma_column_width(fields: Seq<FieldV>)
    requires
        fields.len() > 0,
    ensures
        forall|k: int|
            0 <= k < fields.len() ==> label_width(#[trigger] fields[k]) <= col_width(fields),
        exists|k: int|
            0 <= k < fields.len() && label_width(#[trigger] fields[k]) == col_width(fields),
{
    assert forall|k: int|
        0 <= k < fields.len() implies label_width(#[trigger] fields[k]) <= col_width(fields) by {
        lemma_col_width_bound(fields, k, fields.len() as int);
    }
    lemma_col_width_attained(fields, fields.len() as int);
}

/// Help lines come out in declaration order: the rendering is the header
/// followed by the fields' lines, and each field appends its own line after
/// those of the fields declared before it.
pub proof fn lemma_render_order(fields: Seq<FieldV>, i: int)
    requires
        0 <= i < fields.len(),
    ensures
        render_spec(fields) == "OPTIONS:\n"@ + lines_to(
            fields,
            col_width(fields),
            fields.len() as int,
        ),
        lines_to(fields, col_width(fields), i + 1) == lines_to(fields, col_width(fields), i)
            + line_of(fields[i], col_width(fields)),
{
}

} // verus!
