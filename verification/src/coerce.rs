//! Value coercion: converting a raw string token into a typed value for a
//! declared field kind, with an extension point for user-defined kinds.

use vstd::prelude::*;
use vstd::string::StringExecFns;

use crate::numeric::i64_of_text;
use crate::numeric::is_float_text;
use crate::numeric::is_i64_text;
use crate::numeric::parse_i64;
use crate::text::str_eq;
use crate::value::BaseKind;
use crate::value::BaseValue;
use crate::value::BaseValueV;
use crate::value::TypeKind;
use crate::value::Value;
use crate::value::ValueV;
use crate::numeric::is_float_str;

verus! {

/// A coercion failure, with an optional human-readable reason.
#[derive(Clone, Debug, PartialEq)]
pub struct FromArgError {
    msg: Option<String>,
}

impl View for FromArgError {
    type V = Option<Seq<char>>;

    closed spec fn view(&self) -> Option<Seq<char>> {
        match self.msg {
            Some(ref m) => Some(m@),
            None => None,
        }
    }
}

impl FromArgError {
    /// A failure without a message.
    pub fn new() -> (r: Self)
        ensures
            r@ is None,
    {
        FromArgError { msg: None }
    }

    /// A failure carrying a message.
    pub fn with_message(msg: &str) -> (r: Self)
        ensures
            r@ == Some(msg@),
    {
        FromArgError { msg: Some(String::from_str(msg)) }
    }

    /// The attached message, if any.
    pub fn message(&self) -> (r: Option<&String>)
        ensures
            match r {
                Some(m) => self@ == Some(m@),
                None => self@ is None,
            },
    {
        match self.msg {
            Some(ref m) => Some(m),
            None => None,
        }
    }
}

pub type FromArgResult<T> = Result<T, FromArgError>;

/// A type that can be read from one raw argument string.
pub trait FromArg: Sized {
    /// What `from_arg` returns on each input.
    spec fn from_arg_spec(value: Seq<char>) -> Result<Self, Option<Seq<char>>>;

    /// Reads a value from the raw text.
    fn from_arg(value: &str) -> (r: FromArgResult<Self>)
        ensures
            match (r, Self::from_arg_spec(value@)) {
                (Ok(v), Ok(w)) => v == w,
                (Err(e), Err(m)) => e@ == m,
                _ => false,
            },
    ;
}

/// Canonical boolean text: `true` or `false`, nothing else.
pub open spec fn bool_of_text(s: Seq<char>) -> Result<bool, Option<Seq<char>>> {
    if s == "true"@ {
        Ok(true)
    } else if s == "false"@ {
        Ok(false)
    } else {
        Err(None)
    }
}

impl FromArg for bool {
    open spec fn from_arg_spec(value: Seq<char>) -> Result<bool, Option<Seq<char>>> {
        bool_of_text(value)
    }

    fn from_arg(value: &str) -> (r: FromArgResult<bool>) {
        if str_eq(value, "true") {
            Ok(true)
        } else if str_eq(value, "false") {
            Ok(false)
        } else {
            Err(FromArgError::new())
        }
    }
}

impl FromArg for i64 {
    open spec fn from_arg_spec(value: Seq<char>) -> Result<i64, Option<Seq<char>>> {
        if is_i64_text(value) {
            Ok(i64_of_text(value) as i64)
        } else {
            Err(None)
        }
    }

    fn from_arg(value: &str) -> (r: FromArgResult<i64>) {
        match parse_i64(value) {
            Some(v) => Ok(v),
            None => Err(FromArgError::new()),
        }
    }
}

/// Coercion of a possibly absent raw boolean: a bare flag toggles on.
pub open spec fn bool_coerce(raw: Option<Seq<char>>) -> Result<bool, Option<Seq<char>>> {
    match raw {
        None => Ok(true),
        Some(s) => bool_of_text(s),
    }
}

/// Reads a boolean flag value; an absent value means `true`.
pub fn bool_from_arg(s: Option<&str>) -> (r: FromArgResult<bool>)
    ensures
        match (r, bool_coerce(
            match s {
                Some(t) => Some(t@),
                None => None,
            },
        )) {
            (Ok(v), Ok(w)) => v == w,
            (Err(e), Err(m)) => e@ == m,
            _ => false,
        },
{
    match s {
        Some(t) => <bool as FromArg>::from_arg(t),
        None => Ok(true),
    }
}

/// Reads a value and wraps it in `Some`; used for optional fields, whose
/// coercion never itself yields an absent value.
pub fn option_from_arg<T: FromArg>(s: &str) -> (r: FromArgResult<Option<T>>)
    ensures
        match (r, T::from_arg_spec(s@)) {
            (Ok(Some(v)), Ok(w)) => v == w,
            (Err(e), Err(m)) => e@ == m,
            _ => false,
        },
{
    match T::from_arg(s) {
        Ok(v) => Ok(Some(v)),
        Err(e) => Err(e),
    }
}

/// The user-supplied coercion for `Custom` fields: a registered function from
/// the raw text to a canonical value, dispatched on the field name, together
/// with the default-construction convention the engine requires of every
/// custom kind.
pub trait CustomParser {
    /// What `coerce_custom` returns for a field and an input.
    spec fn coerce_spec(&self, name: Seq<char>, input: Seq<char>) -> Result<
        Seq<char>,
        Option<Seq<char>>,
    >;

    /// The default value `default_custom` supplies for a field.
    spec fn default_spec(&self, name: Seq<char>) -> Seq<char>;

    /// Coerces the raw text given for the named custom field.
    fn coerce_custom(&self, name: &str, input: &str) -> (r: FromArgResult<String>)
        ensures
            match (r, self.coerce_spec(name@, input@)) {
                (Ok(v), Ok(w)) => v@ == w,
                (Err(e), Err(m)) => e@ == m,
                _ => false,
            },
    ;

    /// The default value for the named custom field.
    fn default_custom(&self, name: &str) -> (r: String)
        ensures
            r@ == self.default_spec(name@),
    ;
}

/// A custom coercion that accepts any input verbatim and defaults to the
/// empty string.
pub struct VerbatimCustom;

impl CustomParser for VerbatimCustom {
    open spec fn coerce_spec(&self, name: Seq<char>, input: Seq<char>) -> Result<
        Seq<char>,
        Option<Seq<char>>,
    > {
        Ok(input)
    }

    open spec fn default_spec(&self, name: Seq<char>) -> Seq<char> {
        Seq::empty()
    }

    fn coerce_custom(&self, name: &str, input: &str) -> (r: FromArgResult<String>) {
        Ok(String::from_str(input))
    }

    fn default_custom(&self, name: &str) -> (r: String) {
        let s = String::new();
        proof {
            assert(s@ =~= Seq::<char>::empty());
        }
        s
    }
}

/// Coercion of raw text for a base kind.
pub open spec fn coerce_base_spec<C: CustomParser>(
    k: BaseKind,
    raw: Seq<char>,
    name: Seq<char>,
    custom: &C,
) -> Result<BaseValueV, Option<Seq<char>>> {
    match k {
        BaseKind::Bool => match bool_of_text(raw) {
            Ok(b) => Ok(BaseValueV::Bool(b)),
            Err(m) => Err(m),
        },
        BaseKind::Int => if is_i64_text(raw) {
            Ok(BaseValueV::Int(i64_of_text(raw) as i64))
        } else {
            Err(None)
        },
        BaseKind::Float => if is_float_text(raw) {
            Ok(BaseValueV::Float(raw))
        } else {
            Err(None)
        },
        BaseKind::Text => Ok(BaseValueV::Text(raw)),
        BaseKind::Custom => match custom.coerce_spec(name, raw) {
            Ok(s) => Ok(BaseValueV::Custom(s)),
            Err(m) => Err(m),
        },
    }
}

/// Coercion of a possibly absent raw string for a field kind. Only a boolean
/// kind accepts an absent value (a bare flag means `true`); the parser
/// guarantees presence for every other kind.
pub open spec fn coerce_spec<C: CustomParser>(
    k: TypeKind,
    raw: Option<Seq<char>>,
    name: Seq<char>,
    custom: &C,
) -> Result<ValueV, Option<Seq<char>>> {
    match k {
        TypeKind::Bool => match bool_coerce(raw) {
            Ok(b) => Ok(ValueV::Bool(b)),
            Err(m) => Err(m),
        },
        TypeKind::Optional(ik) => match raw {
            None => Err(None),
            Some(s) => match coerce_base_spec(ik, s, name, custom) {
                Ok(b) => Ok(ValueV::Optional(Some(b))),
                Err(m) => Err(m),
            },
        },
        TypeKind::Int => match raw {
            None => Err(None),
            Some(s) => if is_i64_text(s) {
                Ok(ValueV::Int(i64_of_text(s) as i64))
            } else {
                Err(None)
            },
        },
        TypeKind::Float => match raw {
            None => Err(None),
            Some(s) => if is_float_text(s) {
                Ok(ValueV::Float(s))
            } else {
                Err(None)
            },
        },
        TypeKind::Text => match raw {
            None => Err(None),
            Some(s) => Ok(ValueV::Text(s)),
        },
        TypeKind::Custom => match raw {
            None => Err(None),
            Some(s) => match custom.coerce_spec(name, s) {
                Ok(t) => Ok(ValueV::Custom(t)),
                Err(m) => Err(m),
            },
        },
    }
}

fn coerce_base<C: CustomParser>(k: BaseKind, raw: &str, name: &str, custom: &C) -> (r: Result<
    BaseValue,
    FromArgError,
>)
    ensures
        match (r, coerce_base_spec(k, raw@, name@, custom)) {
            (Ok(v), Ok(w)) => v@ == w,
            (Err(e), Err(m)) => e@ == m,
            _ => false,
        },
{
    match k {
        BaseKind::Bool => match <bool as FromArg>::from_arg(raw) {
            Ok(b) => Ok(BaseValue::Bool(b)),
            Err(e) => Err(e),
        },
        BaseKind::Int => match parse_i64(raw) {
            Some(v) => Ok(BaseValue::Int(v)),
            None => Err(FromArgError::new()),
        },
        BaseKind::Float => if is_float_str(raw) {
            Ok(BaseValue::Float(String::from_str(raw)))
        } else {
            Err(FromArgError::new())
        },
        BaseKind::Text => Ok(BaseValue::Text(String::from_str(raw))),
        BaseKind::Custom => match custom.coerce_custom(name, raw) {
            Ok(s) => Ok(BaseValue::Custom(s)),
            Err(e) => Err(e),
        },
    }
}

/// Converts a raw string token, absent for a bare flag, into a typed value
/// for the declared kind of the named field.
pub fn coerce<C: CustomParser>(k: TypeKind, raw: Option<&str>, name: &str, custom: &C) -> (r:
    Result<Value, FromArgError>)
    ensures
        match (r, coerce_spec(
            k,
            match raw {
                Some(s) => Some(s@),
                None => None,
            },
            name@,
            custom,
        )) {
            (Ok(v), Ok(w)) => v@ == w,
            (Err(e), Err(m)) => e@ == m,
            _ => false,
        },
{
    match k {
        TypeKind::Bool => match bool_from_arg(raw) {
            Ok(b) => Ok(Value::Bool(b)),
            Err(e) => Err(e),
        },
        TypeKind::Optional(ik) => match raw {
            None => Err(FromArgError::new()),
            Some(s) => match coerce_base(ik, s, name, custom) {
                Ok(b) => Ok(Value::Optional(Some(b))),
                Err(e) => Err(e),
            },
        },
        TypeKind::Int => match raw {
            None => Err(FromArgError::new()),
            Some(s) => match parse_i64(s) {
                Some(v) => Ok(Value::Int(v)),
                None => Err(FromArgError::new()),
            },
        },
        TypeKind::Float => match raw {
            None => Err(FromArgError::new()),
            Some(s) => if is_float_str(s) {
                Ok(Value::Float(String::from_str(s)))
            } else {
                Err(FromArgError::new())
            },
        },
        TypeKind::Text => match raw {
            None => Err(FromArgError::new()),
            Some(s) => Ok(Value::Text(String::from_str(s))),
        },
        TypeKind::Custom => match raw {
            None => Err(FromArgError::new()),
            Some(s) => match custom.coerce_custom(name, s) {
                Ok(t) => Ok(Value::Custom(t)),
                Err(e) => Err(e),
            },
        },
    }
}

/// The initial value a field of kind `k` receives when no explicit default is
/// declared: the kind's canonical zero value.
pub open spec fn zero_value<C: CustomParser>(k: TypeKind, name: Seq<char>, custom: &C) -> ValueV {
    match k {
        TypeKind::Bool => ValueV::Bool(false),
        TypeKind::Int => ValueV::Int(0),
        TypeKind::Float => ValueV::Float("0.0"@),
        TypeKind::Text => ValueV::Text(Seq::empty()),
        TypeKind::Optional(_) => ValueV::Optional(None),
        TypeKind::Custom => ValueV::Custom(custom.default_spec(name)),
    }
}

/// Builds the zero value of a kind.
pub fn make_zero_value<C: CustomParser>(k: TypeKind, name: &str, custom: &C) -> (r: Value)
    ensures
        r@ == zero_value(k, name@, custom),
{
    match k {
        TypeKind::Bool => Value::Bool(false),
        TypeKind::Int => Value::Int(0),
        TypeKind::Float => Value::Float(String::from_str("0.0")),
        TypeKind::Text => {
            let s = String::new();
            proof {
                assert(s@ =~= Seq::<char>::empty());
            }
            Value::Text(s)
        },
        TypeKind::Optional(_) => Value::Optional(None),
        TypeKind::Custom => Value::Custom(custom.default_custom(name)),
    }
}

} // verus!
