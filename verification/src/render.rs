//! The description renderer: formats a schema into an aligned help listing.

use vstd::prelude::*;
use vstd::string::StringExecFns;

use crate::numeric::i64_text;
use crate::numeric::i64_to_string;
use crate::schema::Field;
use crate::schema::FieldV;
use crate::schema::Schema;
use crate::value::BaseValue;
use crate::value::BaseValueV;
use crate::value::TypeKind;
use crate::value::Value;
use crate::value::ValueV;

verus! {

/// The number of extended grapheme clusters in a character sequence: the
/// user-perceived length used for column alignment.
pub uninterp spec fn grapheme_count(s: Seq<char>) -> nat;

/// Relies on `unicode_segmentation::UnicodeSegmentation::graphemes` with
/// extended clusters: the segmentation of a string depends on its characters
/// alone, so its cluster count names a pure function of them.
#[verifier::external_body]
fn grapheme_len(s: &str) -> (r: usize)
    ensures
        r as nat == grapheme_count(s@),
{
    unicode_segmentation::UnicodeSegmentation::graphemes(s, true).count()
}

/// The display string for a field's value slot; `VALUE` when none was given.
pub open spec fn placeholder_of(f: FieldV) -> Seq<char> {
    match f.placeholder {
        Some(p) => p,
        None => "VALUE"@,
    }
}

/// The label of one field: the short alias or alignment padding, the long
/// flag, and the type-dependent placeholder suffix.
pub open spec fn label_of(f: FieldV) -> Seq<char> {
    (match f.short_alias {
        Some(c) => seq!['-', c] + ", "@,
        None => "    "@,
    }) + "--"@ + f.name + (match f.type_kind {
        TypeKind::Bool => Seq::<char>::empty(),
        TypeKind::Optional(_) => " ["@ + placeholder_of(f) + "]"@,
        _ => " "@ + placeholder_of(f),
    })
}

/// The user-perceived length of a field's label.
pub open spec fn label_width(f: FieldV) -> nat {
    grapheme_count(label_of(f))
}

/// The widest label among the first `i` fields.
pub open spec fn col_width_to(fields: Seq<FieldV>, i: int) -> nat
    decreases i,
{
    if i <= 0 {
        0
    } else {
        let w = col_width_to(fields, i - 1);
        let l = label_width(fields[i - 1]);
        if l > w {
            l
        } else {
            w
        }
    }
}

/// The column width: the widest label in the schema.
pub open spec fn col_width(fields: Seq<FieldV>) -> nat {
    col_width_to(fields, fields.len() as int)
}

pub proof fn lemma_col_width_bound(fields: Seq<FieldV>, k: int, i: int)
    requires
        0 <= k < i,
    ensures
        col_width_to(fields, i) >= label_width(fields[k]),
    decreases i,
{
    if k < i - 1 {
        lemma_col_width_bound(fields, k, i - 1);
    }
}

/// A run of spaces.
pub open spec fn spaces(n: int) -> Seq<char> {
    Seq::new(
        if n >= 0 {
            n as nat
        } else {
            0
        },
        |i: int| ' ',
    )
}

/// The help rendering of a declared default literal: booleans and numbers as
/// written, text and custom values quoted.
pub open spec fn base_default_text(v: BaseValueV) -> Seq<char> {
    match v {
        BaseValueV::Bool(b) => if b {
            "true"@
        } else {
            "false"@
        },
        BaseValueV::Int(n) => i64_text(n as int),
        BaseValueV::Float(s) => s,
        BaseValueV::Text(s) => "\""@ + s + "\""@,
        BaseValueV::Custom(s) => "\""@ + s + "\""@,
    }
}

/// The help rendering of a default value.
pub open spec fn default_text(v: ValueV) -> Seq<char> {
    match v {
        ValueV::Bool(b) => if b {
            "true"@
        } else {
            "false"@
        },
        ValueV::Int(n) => i64_text(n as int),
        ValueV::Float(s) => s,
        ValueV::Text(s) => "\""@ + s + "\""@,
        ValueV::Optional(o) => match o {
            Some(b) => base_default_text(b),
            None => Seq::empty(),
        },
        ValueV::Custom(s) => "\""@ + s + "\""@,
    }
}

/// One help line: two spaces, the label, and, when the field has a
/// description or a default, four spaces, alignment padding, the description
/// and the default note; each line ends with a newline.
pub open spec fn line_of(f: FieldV, w: nat) -> Seq<char> {
    "  "@ + label_of(f) + (if f.description is Some || f.default is Some {
        "    "@ + spaces(w - label_width(f)) + (match f.description {
            Some(d) => d,
            None => Seq::<char>::empty(),
        }) + (match f.default {
            Some(v) => " (defaults to "@ + default_text(v) + ")"@,
            None => Seq::<char>::empty(),
        })
    } else {
        Seq::<char>::empty()
    }) + "\n"@
}

/// The help lines of the first `i` fields, in declaration order.
pub open spec fn lines_to(fields: Seq<FieldV>, w: nat, i: int) -> Seq<char>
    decreases i,
{
    if i <= 0 {
        Seq::empty()
    } else {
        lines_to(fields, w, i - 1) + line_of(fields[i - 1], w)
    }
}

/// What rendering returns: the header, then one line per field, aligned at
/// the widest label.
pub open spec fn render_spec(fields: Seq<FieldV>) -> Seq<char> {
    "OPTIONS:\n"@ + lines_to(fields, col_width(fields), fields.len() as int)
}

fn build_label(f: &Field) -> (r: String)
    ensures
        r@ == label_of(f@),
{
    proof {
        reveal_strlit("-");
    }
    let mut s = String::new();
    match f.short_alias {
        Some(c) => {
            s.append("-");
            s.push(c);
            s.append(", ");
        },
        None => {
            s.append("    ");
        },
    }
    s.append("--");
    s.append(f.name.as_str());
    match f.type_kind {
        TypeKind::Bool => {},
        TypeKind::Optional(_) => {
            s.append(" [");
            match f.placeholder {
                Some(ref p) => s.append(p.as_str()),
                None => s.append("VALUE"),
            }
            s.append("]");
        },
        _ => {
            s.append(" ");
            match f.placeholder {
                Some(ref p) => s.append(p.as_str()),
                None => s.append("VALUE"),
            }
        },
    }
    proof {
        assert(s@ =~= label_of(f@));
    }
    s
}

fn base_default_string(v: &BaseValue) -> (r: String)
    ensures
        r@ == base_default_text(v@),
{
    match v {
        BaseValue::Bool(b) => {
            if *b {
                String::from_str("true")
            } else {
                String::from_str("false")
            }
        },
        BaseValue::Int(n) => i64_to_string(*n),
        BaseValue::Float(s) => s.clone(),
        BaseValue::Text(s) => {
            let mut q = String::from_str("\"");
            q.append(s.as_str());
            q.append("\"");
            proof {
                assert(q@ =~= base_default_text(v@));
            }
            q
        },
        BaseValue::Custom(s) => {
            let mut q = String::from_str("\"");
            q.append(s.as_str());
            q.append("\"");
            proof {
                assert(q@ =~= base_default_text(v@));
            }
            q
        },
    }
}

fn default_string(v: &Value) -> (r: String)
    ensures
        r@ == default_text(v@),
{
    match v {
        Value::Bool(b) => {
            if *b {
                String::from_str("true")
            } else {
                String::from_str("false")
            }
        },
        Value::Int(n) => i64_to_string(*n),
        Value::Float(s) => s.clone(),
        Value::Text(s) => {
            let mut q = String::from_str("\"");
            q.append(s.as_str());
            q.append("\"");
            proof {
                assert(q@ =~= default_text(v@));
            }
            q
        },
        Value::Optional(o) => match o {
            Some(b) => base_default_string(b),
            None => {
                let q = String::new();
                proof {
                    assert(q@ =~= default_text(v@));
                }
                q
            },
        },
        Value::Custom(s) => {
            let mut q = String::from_str("\"");
            q.append(s.as_str());
            q.append("\"");
            proof {
                assert(q@ =~= default_text(v@));
            }
            q
        },
    }
}

/// Renders the help listing: the `OPTIONS:` header, then one line per field
/// in declaration order, descriptions aligned at the widest label, measured
/// in grapheme clusters.
#[verifier::rlimit(60)]
pub fn render(schema: &Schema) -> (r: String)
    ensures
        r@ == render_spec(schema@),
{
    let fields = schema.fields();
    let n = fields.len();
    let mut labels: Vec<String> = Vec::new();
    let mut widths: Vec<usize> = Vec::new();
    let mut k: usize = 0;
    while k < n
        invariant
            n == fields.deep_view().len(),
            fields.deep_view() == schema@,
            k <= n,
            labels@.len() == k,
            widths@.len() == k,
            forall|t: int| 0 <= t < k ==> (#[trigger] labels@[t])@ == label_of(schema@[t]),
            forall|t: int| 0 <= t < k ==> (#[trigger] widths@[t]) as nat == label_width(schema@[t]),
        decreases n - k,
    {
        let label = build_label(&fields[k]);
        let w = grapheme_len(label.as_str());
        labels.push(label);
        widths.push(w);
        k += 1;
    }
    let mut col: usize = 0;
    let mut k2: usize = 0;
    while k2 < n
        invariant
            n == widths@.len(),
            k2 <= n,
            forall|t: int| 0 <= t < n ==> (#[trigger] widths@[t]) as nat == label_width(schema@[t]),
            col as nat == col_width_to(schema@, k2 as int),
        decreases n - k2,
    {
        if widths[k2] > col {
            col = widths[k2];
        }
        k2 += 1;
    }
    let mut s = String::from_str("OPTIONS:\n");
    let ghost header = s@;
    let mut i: usize = 0;
    while i < n
        invariant
            n == fields.deep_view().len(),
            fields.deep_view() == schema@,
            n == labels@.len(),
            n == widths@.len(),
            i <= n,
            forall|t: int| 0 <= t < n ==> (#[trigger] labels@[t])@ == label_of(schema@[t]),
            forall|t: int| 0 <= t < n ==> (#[trigger] widths@[t]) as nat == label_width(schema@[t]),
            col as nat == col_width(schema@),
            header == "OPTIONS:\n"@,
            s@ == header + lines_to(schema@, col as nat, i as int),
        decreases n - i,
    {
        let f = &fields[i];
        let ghost line_base = s@;
        s.append("  ");
        s.append(labels[i].as_str());
        let has_tail = f.description.is_some() || f.default.is_some();
        if has_tail {
            s.append("    ");
            proof {
                lemma_col_width_bound(schema@, i as int, n as int);
            }
            let wk = widths[i];
            let pad = col - wk;
            let mut p: usize = 0;
            let ghost pad_base = s@;
            while p < pad
                invariant
                    p <= pad,
                    s@ == pad_base + spaces(p as int),
                decreases pad - p,
            {
                s.append(" ");
                proof {
                    reveal_strlit(" ");
                    assert(s@ =~= pad_base + spaces(p as int + 1));
                }
                p += 1;
            }
            proof {
                assert(spaces(pad as int) =~= spaces(
                    col_width(schema@) - label_width(schema@[i as int]),
                ));
            }
            match f.description {
                Some(ref d) => s.append(d.as_str()),
                None => {},
            }
            match f.default {
                Some(ref v) => {
                    s.append(" (defaults to ");
                    let dv = default_string(v);
                    s.append(dv.as_str());
                    s.append(")");
                },
                None => {},
            }
        }
        s.append("\n");
        proof {
            assert(s@ =~= line_base + line_of(schema@[i as int], col as nat));
            assert(s@ =~= header + lines_to(schema@, col as nat, i as int + 1));
        }
        i += 1;
    }
    s
}

} // verus!
