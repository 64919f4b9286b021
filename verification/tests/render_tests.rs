use ctflag::render::render;
use ctflag::schema::Schema;
use ctflag::schema::SchemaBuilder;
use ctflag::value::BaseKind;
use ctflag::value::TypeKind;
use ctflag::value::Value;

fn help_schema() -> Schema {
    let mut b = SchemaBuilder::new();
    b.register(
        String::from("active"),
        TypeKind::Bool,
        None,
        Some('a'),
        None,
        Some(String::from("turn it on")),
    );
    b.register(
        String::from("count"),
        TypeKind::Int,
        Some(Value::Int(42)),
        None,
        None,
        Some(String::from("how many")),
    );
    b.register(
        String::from("limit"),
        TypeKind::Optional(BaseKind::Int),
        None,
        None,
        Some(String::from("N")),
        None,
    );
    b.finalize().unwrap()
}

#[test]
fn render_aligns_descriptions_at_longest_label() {
    let s = help_schema();
    let expected = "OPTIONS:\n\
                    \x20 -a, --active         turn it on\n\
                    \x20     --count VALUE    how many (defaults to 42)\n\
                    \x20     --limit [N]\n";
    assert_eq!(render(&s), expected);
}

#[test]
fn render_is_deterministic() {
    let a = render(&help_schema());
    let b = render(&help_schema());
    assert_eq!(a, b);
}

#[test]
fn render_quotes_text_defaults() {
    let mut b = SchemaBuilder::new();
    b.register(
        String::from("name"),
        TypeKind::Text,
        Some(Value::Text(String::from("bob"))),
        None,
        None,
        None,
    );
    let s = b.finalize().unwrap();
    assert_eq!(
        render(&s),
        "OPTIONS:\n      --name VALUE     (defaults to \"bob\")\n"
    );
}

#[test]
fn render_measures_labels_in_grapheme_clusters() {
    let mut b = SchemaBuilder::new();
    // The placeholder holds a combining accent: three chars, two user-visible
    // grapheme clusters, so alignment must pad by the cluster count.
    b.register(
        String::from("a"),
        TypeKind::Text,
        None,
        None,
        Some(String::from("E\u{301}X")),
        Some(String::from("desc")),
    );
    b.register(String::from("bb"), TypeKind::Text, None, None, None, None);
    let s = b.finalize().unwrap();
    let expected = format!(
        "OPTIONS:\n      --a {}        desc\n      --bb VALUE\n",
        "E\u{301}X"
    );
    assert_eq!(render(&s), expected);
}
