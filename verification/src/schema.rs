//! The schema: an ordered set of field descriptors, built by registration
//! calls and validated once when it is finalised.

use vstd::prelude::*;
use vstd::string::StringExecFns;

use crate::value::TypeKind;
use crate::value::Value;
use crate::value::ValueV;
use crate::value::value_matches_kind;
use crate::value::value_matches;

verus! {

/// One field descriptor.
#[derive(Debug)]
pub struct Field {
    /// The identifier the long flag `--name` is built from.
    pub name: String,
    /// The declared type, which drives coercion and help rendering.
    pub type_kind: TypeKind,
    /// An optional default, type-checked when the schema is finalised.
    pub default: Option<Value>,
    /// An optional single-character alias, the short flag `-x`.
    pub short_alias: Option<char>,
    /// An optional display string for help; `VALUE` when absent.
    pub placeholder: Option<String>,
    /// An optional help sentence.
    pub description: Option<String>,
}

/// Mathematical counterpart of [`Field`].
pub struct FieldV {
    pub name: Seq<char>,
    pub type_kind: TypeKind,
    pub default: Option<ValueV>,
    pub short_alias: Option<char>,
    pub placeholder: Option<Seq<char>>,
    pub description: Option<Seq<char>>,
}

impl View for Field {
    type V = FieldV;

    open spec fn view(&self) -> FieldV {
        FieldV {
            name: self.name@,
            type_kind: self.type_kind,
            default: self.default.deep_view(),
            short_alias: self.short_alias,
            placeholder: self.placeholder.deep_view(),
            description: self.description.deep_view(),
        }
    }
}

impl DeepView for Field {
    type V = FieldV;

    open spec fn deep_view(&self) -> FieldV {
        self@
    }
}

/// A schema construction failure.
#[derive(Clone, Debug, PartialEq)]
pub enum SchemaError {
    /// The schema holds no field at all.
    EmptySchema,
    /// The named `Optional` field declares a default.
    OptionalDefault(String),
    /// The named field declares a default incompatible with its kind.
    DefaultTypeMismatch(String),
    /// Two fields collide on their long name.
    DuplicateLongName(String),
    /// Two fields collide on their short alias.
    DuplicateShortAlias(char),
}

/// Mathematical counterpart of [`SchemaError`].
pub enum SchemaErrorV {
    EmptySchema,
    OptionalDefault(Seq<char>),
    DefaultTypeMismatch(Seq<char>),
    DuplicateLongName(Seq<char>),
    DuplicateShortAlias(char),
}

impl View for SchemaError {
    type V = SchemaErrorV;

    open spec fn view(&self) -> SchemaErrorV {
        match self {
            SchemaError::EmptySchema => SchemaErrorV::EmptySchema,
            SchemaError::OptionalDefault(n) => SchemaErrorV::OptionalDefault(n@),
            SchemaError::DefaultTypeMismatch(n) => SchemaErrorV::DefaultTypeMismatch(n@),
            SchemaError::DuplicateLongName(n) => SchemaErrorV::DuplicateLongName(n@),
            SchemaError::DuplicateShortAlias(c) => SchemaErrorV::DuplicateShortAlias(*c),
        }
    }
}

/// The textual rendering of a schema construction failure.
pub open spec fn schema_error_message(e: SchemaErrorV) -> Seq<char> {
    match e {
        SchemaErrorV::EmptySchema => "schema must have at least one field"@,
        SchemaErrorV::OptionalDefault(n) => "default value not allowed with optional field \""@ + n
            + "\""@,
        SchemaErrorV::DefaultTypeMismatch(n) => "default value for field \""@ + n
            + "\" does not match its type"@,
        SchemaErrorV::DuplicateLongName(n) => "duplicate flag name \""@ + n + "\""@,
        SchemaErrorV::DuplicateShortAlias(c) => "duplicate short alias '"@ + seq![c] + "'"@,
    }
}

impl SchemaError {
    /// Renders the failure for a human reader.
    pub fn message(&self) -> (r: String)
        ensures
            r@ == schema_error_message(self@),
    {
        match self {
            SchemaError::EmptySchema => String::from_str("schema must have at least one field"),
            SchemaError::OptionalDefault(n) => {
                let mut s = String::from_str("default value not allowed with optional field \"");
                s.append(n.as_str());
                s.append("\"");
                proof {
                    assert(s@ =~= schema_error_message(self@));
                }
                s
            },
            SchemaError::DefaultTypeMismatch(n) => {
                let mut s = String::from_str("default value for field \"");
                s.append(n.as_str());
                s.append("\" does not match its type");
                proof {
                    assert(s@ =~= schema_error_message(self@));
                }
                s
            },
            SchemaError::DuplicateLongName(n) => {
                let mut s = String::from_str("duplicate flag name \"");
                s.append(n.as_str());
                s.append("\"");
                proof {
                    assert(s@ =~= schema_error_message(self@));
                }
                s
            },
            SchemaError::DuplicateShortAlias(c) => {
                let mut s = String::from_str("duplicate short alias '");
                s.push(*c);
                s.append("'");
                proof {
                    assert(s@ =~= schema_error_message(self@));
                }
                s
            },
        }
    }
}

/// The first problem with field `i`, checked in this order: a default on an
/// `Optional` field, a default of the wrong kind, a long-name collision with
/// an earlier field, a short-alias collision with an earlier field.
pub open spec fn field_issue(fields: Seq<FieldV>, i: int) -> Option<SchemaErrorV> {
    let f = fields[i];
    if f.type_kind is Optional && f.default is Some {
        Some(SchemaErrorV::OptionalDefault(f.name))
    } else if f.default matches Some(d) && !value_matches_kind(d, f.type_kind) {
        Some(SchemaErrorV::DefaultTypeMismatch(f.name))
    } else if exists|k: int| 0 <= k < i && (#[trigger] fields[k]).name == f.name {
        Some(SchemaErrorV::DuplicateLongName(f.name))
    } else if f.short_alias matches Some(c) && exists|k: int|
        0 <= k < i && (#[trigger] fields[k]).short_alias == Some(c) {
        Some(SchemaErrorV::DuplicateShortAlias(f.short_alias->0))
    } else {
        None
    }
}

pub open spec fn check_from(fields: Seq<FieldV>, i: int) -> Result<(), SchemaErrorV>
    decreases fields.len() - i,
{
    if i < 0 || i >= fields.len() {
        Ok(())
    } else {
        match field_issue(fields, i) {
            Some(e) => Err(e),
            None => check_from(fields, i + 1),
        }
    }
}

/// Validation of a whole field list, in declaration order: the first problem
/// found is reported; an empty schema is itself a problem.
pub open spec fn schema_check(fields: Seq<FieldV>) -> Result<(), SchemaErrorV> {
    if fields.len() == 0 {
        Err(SchemaErrorV::EmptySchema)
    } else {
        check_from(fields, 0)
    }
}

proof fn lemma_check_skip(fields: Seq<FieldV>, i: int, j: int)
    requires
        0 <= i <= j <= fields.len(),
        forall|k: int| i <= k < j ==> field_issue(fields, k) is None,
    ensures
        check_from(fields, i) == check_from(fields, j),
    decreases j - i,
{
    if i < j {
        lemma_check_skip(fields, i + 1, j);
    }
}

/// The immutable, validated schema; constructed only by
/// [`SchemaBuilder::finalize`].
#[derive(Debug)]
pub struct Schema {
    fields: Vec<Field>,
}

impl View for Schema {
    type V = Seq<FieldV>;

    closed spec fn view(&self) -> Seq<FieldV> {
        self.fields.deep_view()
    }
}

impl Schema {
    /// A schema is well formed when validation accepts its fields.
    pub open spec fn wf(&self) -> bool {
        schema_check(self@) is Ok
    }

    /// Read access to the field descriptors, in declaration order.
    pub fn fields(&self) -> (r: &Vec<Field>)
        ensures
            r.deep_view() == self@,
    {
        &self.fields
    }

    /// The number of fields.
    pub fn len(&self) -> (r: usize)
        ensures
            r == self@.len(),
    {
        self.fields.len()
    }
}

/// Collects field registrations and validates them into a [`Schema`].
pub struct SchemaBuilder {
    fields: Vec<Field>,
}

impl View for SchemaBuilder {
    type V = Seq<FieldV>;

    closed spec fn view(&self) -> Seq<FieldV> {
        self.fields.deep_view()
    }
}

fn name_dup_before(fields: &Vec<Field>, i: usize) -> (r: bool)
    requires
        i < fields.deep_view().len(),
    ensures
        r == exists|k: int|
            0 <= k < i && (#[trigger] fields.deep_view()[k]).name == fields.deep_view()[i as int].name,
{
    let mut j: usize = 0;
    while j < i
        invariant
            i < fields.deep_view().len(),
            j <= i,
            forall|k: int|
                0 <= k < j ==> (#[trigger] fields.deep_view()[k]).name
                    != fields.deep_view()[i as int].name,
        decreases i - j,
    {
        if fields[j].name == fields[i].name {
            proof {
                assert((fields.deep_view()[j as int]).name == (fields.deep_view()[i as int]).name);
            }
            return true;
        }
        j += 1;
    }
    false
}

fn alias_dup_before(fields: &Vec<Field>, i: usize, c: char) -> (r: bool)
    requires
        i < fields.deep_view().len(),
    ensures
        r == exists|k: int|
            0 <= k < i && (#[trigger] fields.deep_view()[k]).short_alias == Some(c),
{
    let mut j: usize = 0;
    while j < i
        invariant
            i < fields.deep_view().len(),
            j <= i,
            forall|k: int| 0 <= k < j ==> (#[trigger] fields.deep_view()[k]).short_alias != Some(c),
        decreases i - j,
    {
        match fields[j].short_alias {
            Some(a) => {
                if a == c {
                    proof {
                        assert((fields.deep_view()[j as int]).short_alias == Some(c));
                    }
                    return true;
                }
            },
            None => {},
        }
        j += 1;
    }
    false
}

impl SchemaBuilder {
    /// A builder with no fields yet.
    pub fn new() -> (r: Self)
        ensures
            r@ == Seq::<FieldV>::empty(),
    {
        let r = SchemaBuilder { fields: Vec::new() };
        proof {
            assert(r@ =~= Seq::<FieldV>::empty());
        }
        r
    }

    /// Registers one field, in declaration order. Nothing is validated here;
    /// `finalize` checks the whole set.
    pub fn register(
        &mut self,
        name: String,
        type_kind: TypeKind,
        default: Option<Value>,
        short_alias: Option<char>,
        placeholder: Option<String>,
        description: Option<String>,
    )
        ensures
            final (self)@ == old(self)@.push(
                FieldV {
                    name: name@,
                    type_kind: type_kind,
                    default: default.deep_view(),
                    short_alias: short_alias,
                    placeholder: placeholder.deep_view(),
                    description: description.deep_view(),
                },
            ),
    {
        let ghost fv = FieldV {
            name: name@,
            type_kind: type_kind,
            default: default.deep_view(),
            short_alias: short_alias,
            placeholder: placeholder.deep_view(),
            description: description.deep_view(),
        };
        self.fields.push(
            Field { name, type_kind, default, short_alias, placeholder, description },
        );
        proof {
            assert(self@ =~= old(self)@.push(fv));
        }
    }

    /// Validates the registered fields: fails on a default on an `Optional`
    /// field, a default of the wrong kind, a long-name or short-alias
    /// collision, or an empty schema; otherwise hands back the immutable
    /// schema with the fields in declaration order.
    pub fn finalize(self) -> (r: Result<Schema, SchemaError>)
        ensures
            match (r, schema_check(self@)) {
                (Ok(s), Ok(_)) => s@ == self@,
                (Err(e), Err(ev)) => e@ == ev,
                _ => false,
            },
    {
        if self.fields.len() == 0 {
            proof {
                assert(self@.len() == 0);
            }
            return Err(SchemaError::EmptySchema);
        }
        let n = self.fields.len();
        let mut i: usize = 0;
        while i < n
            invariant
                n == self.fields.len(),
                n == self@.len(),
                i <= n,
                forall|k: int| 0 <= k < i ==> field_issue(self@, k) is None,
            decreases n - i,
        {
            let f = &self.fields[i];
            let is_optional = matches!(f.type_kind, TypeKind::Optional(_));
            match f.default {
                Some(ref d) => {
                    if is_optional {
                        proof {
                            lemma_check_skip(self@, 0, i as int);
                        }
                        return Err(SchemaError::OptionalDefault(f.name.clone()));
                    }
                    if !value_matches(d, f.type_kind) {
                        proof {
                            lemma_check_skip(self@, 0, i as int);
                        }
                        return Err(SchemaError::DefaultTypeMismatch(f.name.clone()));
                    }
                },
                None => {},
            }
            if name_dup_before(&self.fields, i) {
                proof {
                    lemma_check_skip(self@, 0, i as int);
                }
                return Err(SchemaError::DuplicateLongName(self.fields[i].name.clone()));
            }
            match self.fields[i].short_alias {
                Some(c) => {
                    if alias_dup_before(&self.fields, i, c) {
                        proof {
                            lemma_check_skip(self@, 0, i as int);
                        }
                        return Err(SchemaError::DuplicateShortAlias(c));
                    }
                },
                None => {},
            }
            proof {
                assert(field_issue(self@, i as int) is None);
            }
            i += 1;
        }
        proof {
            lemma_check_skip(self@, 0, n as int);
        }
        Ok(Schema { fields: self.fields })
    }
}

} // verus!
