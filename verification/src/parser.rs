//! The parsing engine: a single forward pass over the classified arguments,
//! matching flags against the schema, coercing values and collecting
//! positionals.

use vstd::prelude::*;
use vstd::string::StringExecFns;

use crate::coerce::CustomParser;
use crate::coerce::FromArgError;
use crate::coerce::coerce;
use crate::coerce::coerce_spec;
use crate::coerce::make_zero_value;
use crate::coerce::zero_value;
use crate::schema::Field;
use crate::schema::FieldV;
use crate::schema::Schema;
use crate::text::chars_of;
use crate::text::str_eq;
use crate::tokenizer::Arg;
use crate::tokenizer::classify_arg;
use crate::tokenizer::flag_key;
use crate::tokenizer::flag_val;
use crate::tokenizer::tok_is_flag;
use crate::value::TypeKind;
use crate::value::Value;
use crate::value::ValueV;
use crate::value::kind_name;
use crate::value::kind_name_string;

verus! {

/// A failed coercion, with the type description, the offending input and the
/// underlying coercion error.
#[derive(Clone, Debug, PartialEq)]
pub struct ParseErrorStruct {
    pub type_str: String,
    pub input: String,
    pub src: FromArgError,
}

/// Mathematical counterpart of [`ParseErrorStruct`].
pub struct ParseErrorStructV {
    pub type_str: Seq<char>,
    pub input: Seq<char>,
    pub src: Option<Seq<char>>,
}

impl View for ParseErrorStruct {
    type V = ParseErrorStructV;

    open spec fn view(&self) -> ParseErrorStructV {
        ParseErrorStructV { type_str: self.type_str@, input: self.input@, src: self.src@ }
    }
}

/// A parse failure; the first error in scan order ends the parse.
#[derive(Clone, Debug, PartialEq)]
pub enum FlagError {
    /// Value coercion failed.
    ParseError(ParseErrorStruct),
    /// A non-boolean flag was given with no inline value and nothing followed.
    MissingValue(String),
    /// A flag token matched no schema field.
    UnrecognizedArg(String),
}

/// Mathematical counterpart of [`FlagError`].
pub enum FlagErrorV {
    ParseError(ParseErrorStructV),
    MissingValue(Seq<char>),
    UnrecognizedArg(Seq<char>),
}

impl View for FlagError {
    type V = FlagErrorV;

    open spec fn view(&self) -> FlagErrorV {
        match self {
            FlagError::ParseError(p) => FlagErrorV::ParseError(p@),
            FlagError::MissingValue(n) => FlagErrorV::MissingValue(n@),
            FlagError::UnrecognizedArg(k) => FlagErrorV::UnrecognizedArg(k@),
        }
    }
}

pub type ParseResult<T> = Result<T, FlagError>;

/// The textual rendering of a parse failure.
pub open spec fn error_message(e: FlagErrorV) -> Seq<char> {
    match e {
        FlagErrorV::ParseError(p) => "failed to parse \""@ + p.input + "\" as "@ + p.type_str
            + " type"@ + (match p.src {
            Some(m) => ": "@ + m,
            None => Seq::<char>::empty(),
        }),
        FlagErrorV::MissingValue(n) => "missing value for argument \""@ + n + "\""@,
        FlagErrorV::UnrecognizedArg(k) => "unrecognized argument \""@ + k + "\""@,
    }
}

impl FlagError {
    /// Renders the failure for a human reader.
    pub fn message(&self) -> (r: String)
        ensures
            r@ == error_message(self@),
    {
        match self {
            FlagError::ParseError(p) => {
                let mut s = String::from_str("failed to parse \"");
                s.append(p.input.as_str());
                s.append("\" as ");
                s.append(p.type_str.as_str());
                s.append(" type");
                match p.src.message() {
                    Some(m) => {
                        s.append(": ");
                        s.append(m.as_str());
                    },
                    None => {},
                }
                proof {
                    assert(s@ =~= error_message(self@));
                }
                s
            },
            FlagError::MissingValue(n) => {
                let mut s = String::from_str("missing value for argument \"");
                s.append(n.as_str());
                s.append("\"");
                proof {
                    assert(s@ =~= error_message(self@));
                }
                s
            },
            FlagError::UnrecognizedArg(k) => {
                let mut s = String::from_str("unrecognized argument \"");
                s.append(k.as_str());
                s.append("\"");
                proof {
                    assert(s@ =~= error_message(self@));
                }
                s
            },
        }
    }
}

/// The parse output: every field present with a typed value, in schema
/// declaration order, plus the leftover positionals in original order.
#[derive(Debug, PartialEq)]
pub struct ParsedArguments {
    pub values: Vec<(String, Value)>,
    pub positionals: Vec<String>,
}

/// Mathematical counterpart of [`ParsedArguments`].
pub struct ParsedV {
    pub values: Seq<(Seq<char>, ValueV)>,
    pub positionals: Seq<Seq<char>>,
}

impl View for ParsedArguments {
    type V = ParsedV;

    open spec fn view(&self) -> ParsedV {
        ParsedV {
            values: Seq::new(self.values@.len(), |k: int| (self.values@[k].0@, self.values@[k].1@)),
            positionals: self.positionals.deep_view(),
        }
    }
}

impl ParsedArguments {
    /// The value assigned to the named field, if the field exists: the first
    /// entry with that name.
    pub fn get(&self, name: &str) -> (r: Option<&Value>)
        ensures
            match r {
                Some(v) => exists|k: int|
                    0 <= k < self@.values.len() && (#[trigger] self@.values[k]).0 == name@ && v@
                        == self@.values[k].1,
                None => forall|k: int|
                    0 <= k < self@.values.len() ==> (#[trigger] self@.values[k]).0 != name@,
            },
    {
        let n = self.values.len();
        let mut i: usize = 0;
        while i < n
            invariant
                n == self.values@.len(),
                i <= n,
                forall|k: int| 0 <= k < i ==> (#[trigger] self@.values[k]).0 != name@,
            decreases n - i,
        {
            if str_eq(self.values[i].0.as_str(), name) {
                proof {
                    assert((self@.values[i as int]).0 == name@);
                }
                return Some(&self.values[i].1);
            }
            i += 1;
        }
        None
    }
}

/// The long flag form of a field name.
pub open spec fn long_form(name: Seq<char>) -> Seq<char> {
    "--"@ + name
}

/// The short flag form of an alias character.
pub open spec fn short_form(c: char) -> Seq<char> {
    seq!['-', c]
}

/// A key matches a field through its long form or its short form.
pub open spec fn field_matches_key(f: FieldV, key: Seq<char>) -> bool {
    key == long_form(f.name) || (f.short_alias matches Some(c) && key == short_form(c))
}

/// Index of the first field matching the key, scanning from `i`.
pub open spec fn lookup_from(fields: Seq<FieldV>, key: Seq<char>, i: int) -> Option<int>
    decreases fields.len() - i,
{
    if i < 0 || i >= fields.len() {
        None
    } else if field_matches_key(fields[i], key) {
        Some(i)
    } else {
        lookup_from(fields, key, i + 1)
    }
}

/// Index of the first field matching the key.
pub open spec fn lookup(fields: Seq<FieldV>, key: Seq<char>) -> Option<int> {
    lookup_from(fields, key, 0)
}

pub proof fn lemma_lookup_skip(fields: Seq<FieldV>, key: Seq<char>, i: int, j: int)
    requires
        0 <= i <= j <= fields.len(),
        forall|k: int| i <= k < j ==> !field_matches_key(#[trigger] fields[k], key),
    ensures
        lookup_from(fields, key, i) == lookup_from(fields, key, j),
    decreases j - i,
{
    if i < j {
        lemma_lookup_skip(fields, key, i + 1, j);
    }
}

fn key_matches_field(key: &String, f: &Field) -> (r: bool)
    ensures
        r == field_matches_key(f@, key@),
{
    let mut long = String::from_str("--");
    long.append(f.name.as_str());
    if str_eq(key.as_str(), long.as_str()) {
        return true;
    }
    match f.short_alias {
        Some(c) => {
            let kc = chars_of(key.as_str());
            if kc.len() == 2 && kc[0] == '-' && kc[1] == c {
                proof {
                    assert(key@ =~= short_form(c));
                }
                true
            } else {
                proof {
                    assert(key@ != short_form(c));
                }
                false
            }
        },
        None => false,
    }
}

fn lookup_key(fields: &Vec<Field>, key: &String) -> (r: Option<usize>)
    ensures
        match r {
            Some(j) => 0 <= j < fields.deep_view().len() && lookup(fields.deep_view(), key@)
                == Some(j as int),
            None => lookup(fields.deep_view(), key@) is None,
        },
{
    let n = fields.len();
    let mut i: usize = 0;
    while i < n
        invariant
            n == fields.deep_view().len(),
            i <= n,
            forall|k: int| 0 <= k < i ==> !field_matches_key(#[trigger] fields.deep_view()[k], key@),
        decreases n - i,
    {
        if key_matches_field(key, &fields[i]) {
            proof {
                lemma_lookup_skip(fields.deep_view(), key@, 0, i as int);
            }
            return Some(i);
        }
        i += 1;
    }
    proof {
        lemma_lookup_skip(fields.deep_view(), key@, 0, n as int);
    }
    None
}

/// The running state of the scan: the value of every field so far, parallel
/// to the schema, and the positionals collected so far.
pub struct EngineState {
    pub vals: Seq<ValueV>,
    pub positionals: Seq<Seq<char>>,
}

/// The initial value of a field: its declared default, or the kind's zero
/// value.
pub open spec fn init_value<C: CustomParser>(f: FieldV, custom: &C) -> ValueV {
    match f.default {
        Some(v) => v,
        None => zero_value(f.type_kind, f.name, custom),
    }
}

/// The initial values of all fields, in declaration order.
pub open spec fn init_vals<C: CustomParser>(fields: Seq<FieldV>, custom: &C) -> Seq<ValueV> {
    Seq::new(fields.len(), |k: int| init_value(fields[k], custom))
}

/// Coercion of one flag's raw value against its field, wrapping a failure in
/// the parse error that reports the type description and the offending input.
pub open spec fn coerce_step<C: CustomParser>(
    f: FieldV,
    raw: Option<Seq<char>>,
    custom: &C,
) -> Result<ValueV, FlagErrorV> {
    match coerce_spec(f.type_kind, raw, f.name, custom) {
        Ok(v) => Ok(v),
        Err(m) => Err(
            FlagErrorV::ParseError(
                ParseErrorStructV {
                    type_str: kind_name(f.type_kind),
                    input: match raw {
                        Some(s) => s,
                        None => Seq::empty(),
                    },
                    src: m,
                },
            ),
        ),
    }
}

/// One forward pass from argument `i` on: a positional is appended; a flag is
/// matched against the schema and its value coerced; a non-boolean flag with
/// no inline value consumes the next raw argument whatever its shape; the
/// first error ends the scan.
pub open spec fn parse_loop<C: CustomParser>(
    fields: Seq<FieldV>,
    custom: &C,
    args: Seq<Seq<char>>,
    i: int,
    st: EngineState,
) -> Result<EngineState, FlagErrorV>
    decreases args.len() - i,
{
    if i < 0 || i >= args.len() {
        Ok(st)
    } else {
        let a = args[i];
        if !tok_is_flag(a) {
            parse_loop(
                fields,
                custom,
                args,
                i + 1,
                EngineState { vals: st.vals, positionals: st.positionals.push(a) },
            )
        } else {
            match lookup(fields, flag_key(a)) {
                None => Err(FlagErrorV::UnrecognizedArg(flag_key(a))),
                Some(j) => {
                    let f = fields[j];
                    if f.type_kind is Bool || flag_val(a) is Some {
                        match coerce_step(f, flag_val(a), custom) {
                            Ok(v) => parse_loop(
                                fields,
                                custom,
                                args,
                                i + 1,
                                EngineState {
                                    vals: st.vals.update(j, v),
                                    positionals: st.positionals,
                                },
                            ),
                            Err(e) => Err(e),
                        }
                    } else if i + 1 < args.len() {
                        match coerce_step(f, Some(args[i + 1]), custom) {
                            Ok(v) => parse_loop(
                                fields,
                                custom,
                                args,
                                i + 2,
                                EngineState {
                                    vals: st.vals.update(j, v),
                                    positionals: st.positionals,
                                },
                            ),
                            Err(e) => Err(e),
                        }
                    } else {
                        Err(FlagErrorV::MissingValue(f.name))
                    }
                },
            }
        }
    }
}

/// The state the scan starts from: every field at its initial value, and the
/// program name, the first raw argument if any, as the first positional.
pub open spec fn start_state<C: CustomParser>(
    fields: Seq<FieldV>,
    custom: &C,
    args: Seq<Seq<char>>,
) -> EngineState {
    EngineState {
        vals: init_vals(fields, custom),
        positionals: if args.len() > 0 {
            seq![args[0]]
        } else {
            Seq::empty()
        },
    }
}

/// What parsing returns: the whole algorithm, from tokenization through
/// matching, coercion and default resolution, as a function of the schema,
/// the custom coercer and the raw arguments.
pub open spec fn parse_spec<C: CustomParser>(
    fields: Seq<FieldV>,
    custom: &C,
    args: Seq<Seq<char>>,
) -> Result<ParsedV, FlagErrorV> {
    match parse_loop(fields, custom, args, 1, start_state(fields, custom, args)) {
        Ok(st) => Ok(
            ParsedV {
                values: Seq::new(fields.len(), |k: int| (fields[k].name, st.vals[k])),
                positionals: st.positionals,
            },
        ),
        Err(e) => Err(e),
    }
}

/// Parses the raw arguments against the schema: a single forward pass, fail
/// fast on the first error, positionals passed through in order, the first
/// raw argument always a positional.
pub fn parse<C: CustomParser>(schema: &Schema, args: &Vec<String>, custom: &C) -> (r: Result<
    ParsedArguments,
    FlagError,
>)
    ensures
        match (r, parse_spec(schema@, custom, args.deep_view())) {
            (Ok(p), Ok(pv)) => p@ == pv,
            (Err(e), Err(ev)) => e@ == ev,
            _ => false,
        },
{
    let ghost argsv = args.deep_view();
    let fields = schema.fields();
    let n = fields.len();
    let mut values: Vec<(String, Value)> = Vec::new();
    let mut k: usize = 0;
    while k < n
        invariant
            n == fields.deep_view().len(),
            fields.deep_view() == schema@,
            k <= n,
            values@.len() == k,
            forall|t: int| 0 <= t < k ==> (#[trigger] values@[t]).0@ == schema@[t].name,
            forall|t: int|
                0 <= t < k ==> (#[trigger] values@[t]).1@ == init_vals(schema@, custom)[t],
        decreases n - k,
    {
        let f = &fields[k];
        let v = match f.default {
            Some(ref d) => d.clone(),
            None => make_zero_value(f.type_kind, f.name.as_str(), custom),
        };
        proof {
            assert(v@ == init_value(schema@[k as int], custom));
        }
        values.push((f.name.clone(), v));
        k += 1;
    }
    let mut positionals: Vec<String> = Vec::new();
    if args.len() > 0 {
        positionals.push(args[0].clone());
    }
    proof {
        assert(Seq::new(values@.len(), |t: int| values@[t].1@) =~= init_vals(schema@, custom));
        assert(positionals.deep_view() =~= start_state(schema@, custom, argsv).positionals);
    }
    let mut i: usize = 1;
    while i < args.len()
        invariant
            n == fields.deep_view().len(),
            fields.deep_view() == schema@,
            argsv == args.deep_view(),
            values@.len() == n,
            forall|t: int| 0 <= t < n ==> (#[trigger] values@[t]).0@ == schema@[t].name,
            1 <= i,
            argsv.len() > 0 ==> i <= argsv.len(),
            argsv.len() == 0 ==> i == 1,
            parse_loop(
                schema@,
                custom,
                argsv,
                i as int,
                EngineState {
                    vals: Seq::new(values@.len(), |t: int| values@[t].1@),
                    positionals: positionals.deep_view(),
                },
            ) == parse_loop(schema@, custom, argsv, 1, start_state(schema@, custom, argsv)),
        decreases args.len() - i,
    {
        let ghost st = EngineState {
            vals: Seq::new(values@.len(), |t: int| values@[t].1@),
            positionals: positionals.deep_view(),
        };
        let a = args[i].clone();
        proof {
            assert(a@ == argsv[i as int]);
        }
        match classify_arg(a) {
            Arg::Arg(s) => {
                positionals.push(s);
                i += 1;
                proof {
                    assert(positionals.deep_view() =~= st.positionals.push(argsv[i as int - 1]));
                    assert(parse_loop(schema@, custom, argsv, i as int, EngineState {
                        vals: Seq::new(values@.len(), |t: int| values@[t].1@),
                        positionals: positionals.deep_view(),
                    }) == parse_loop(schema@, custom, argsv, i as int - 1, st));
                }
            },
            Arg::Flag(ft) => {
                proof {
                    assert(ft@.key == flag_key(argsv[i as int]));
                    assert(ft@.val == flag_val(argsv[i as int]));
                }
                match lookup_key(fields, &ft.key) {
                    None => {
                        return Err(FlagError::UnrecognizedArg(ft.key));
                    },
                    Some(j) => {
                        let f = &fields[j];
                        let is_bool = matches!(f.type_kind, TypeKind::Bool);
                        let raw: Option<String>;
                        let next_i: usize;
                        if is_bool || ft.val.is_some() {
                            raw = ft.val;
                            next_i = i + 1;
                        } else if i + 1 < args.len() {
                            raw = Some(args[i + 1].clone());
                            next_i = i + 2;
                        } else {
                            return Err(FlagError::MissingValue(f.name.clone()));
                        }
                        let raw_ref: Option<&str> = match raw {
                            Some(ref s) => Some(s.as_str()),
                            None => None,
                        };
                        let ghost rawv = match raw_ref {
                            Some(s) => Some(s@),
                            None => None,
                        };
                        match coerce(f.type_kind, raw_ref, f.name.as_str(), custom) {
                            Ok(v) => {
                                proof {
                                    assert(coerce_step(schema@[j as int], rawv, custom) == Ok::<
                                        ValueV,
                                        FlagErrorV,
                                    >(v@));
                                }
                                values[j].1 = v;
                                i = next_i;
                                proof {
                                    assert(Seq::new(values@.len(), |t: int| values@[t].1@)
                                        =~= st.vals.update(j as int, values@[j as int].1@));
                                    assert(parse_loop(schema@, custom, argsv, i as int, EngineState {
                                        vals: Seq::new(values@.len(), |t: int| values@[t].1@),
                                        positionals: positionals.deep_view(),
                                    }) == parse_loop(schema@, custom, argsv, i as int, EngineState {
                                        vals: st.vals.update(j as int, values@[j as int].1@),
                                        positionals: st.positionals,
                                    }));
                                }
                            },
                            Err(e) => {
                                let err = FlagError::ParseError(
                                    ParseErrorStruct {
                                        type_str: kind_name_string(f.type_kind),
                                        input: match raw {
                                            Some(s) => s,
                                            None => String::new(),
                                        },
                                        src: e,
                                    },
                                );
                                proof {
                                    assert(coerce_step(schema@[j as int], rawv, custom) == Err::<
                                        ValueV,
                                        FlagErrorV,
                                    >(err@));
                                }
                                return Err(err);
                            },
                        }
                    },
                }
            },
        }
    }
    let r = ParsedArguments { values, positionals };
    proof {
        let fin = parse_loop(schema@, custom, argsv, i as int, EngineState {
            vals: Seq::new(r.values@.len(), |t: int| r.values@[t].1@),
            positionals: r.positionals.deep_view(),
        });
        assert(fin == parse_loop(schema@, custom, argsv, 1, start_state(schema@, custom, argsv)));
        assert(r@.values =~= Seq::new(
            schema@.len(),
            |k: int| (schema@[k].name, Seq::new(r.values@.len(), |t: int| r.values@[t].1@)[k]),
        ));
    }
    Ok(r)
}

} // verus!
