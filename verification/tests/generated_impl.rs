use enum_message::enum_messages::{
    enum_message_inner, enum_message_text, is_well_formed, try_enum_message, validate, Rejection,
    SingleProperty,
};
use enum_message::model::{Attribute, Body, DeriveInput, NestedItem, Variant, VariantShape};

const OPTION_STR: &str = ":: std :: option :: Option < & str >";
const NONE_ARM: &str = "_ => :: std :: option :: Option :: None";

fn strum(props: &[(&str, &str)]) -> Attribute {
    Attribute::List {
        name: "strum".to_string(),
        items: props
            .iter()
            .map(|(name, value)| NestedItem::Property {
                name: name.to_string(),
                value: value.to_string(),
            })
            .collect(),
    }
}

fn variant(ident: &str, shape: VariantShape, attrs: Vec<Attribute>) -> Variant {
    Variant { ident: ident.to_string(), attrs, shape }
}

fn plain_enum(ident: &str, variants: Vec<Variant>) -> DeriveInput {
    DeriveInput {
        ident: ident.to_string(),
        impl_generics: String::new(),
        ty_generics: String::new(),
        where_clause: String::new(),
        body: Body::Enum(variants),
    }
}

fn some_arm(pattern: &str, literal: &str) -> String {
    format!("{} => :: std :: option :: Option :: Some ( {} )", pattern, literal)
}

fn names_arm(pattern: &str, count: usize, literals: &str) -> String {
    format!(
        "{} => {{ static ARR : [ & 'static str ; {}usize ] = [ {} ] ; & ARR }}",
        pattern, count, literals
    )
}

fn whole(header: &str, messages: &[String], detailed: &[String], names: &[String]) -> String {
    let table = |arms: &[String]| {
        if arms.is_empty() {
            "{ match self { } }".to_string()
        } else {
            format!("{{ match self {{ {} }} }}", arms.join(" , "))
        }
    };
    format!(
        "{} {{ fn get_message ( & self ) -> {} {} fn get_detailed_message ( & self ) -> {} {} \
         fn get_serializations ( & self ) -> & [ & str ] {} }}",
        header,
        OPTION_STR,
        table(messages),
        OPTION_STR,
        table(detailed),
        table(names)
    )
}

fn generate(ast: &DeriveInput) -> String {
    assert!(is_well_formed(ast));
    let text = enum_message_text(ast);
    assert_eq!(enum_message_inner(ast).as_str(), text);
    text
}

#[test]
fn single_variant_with_message_gives_the_full_impl() {
    let ast = plain_enum(
        "Color",
        vec![variant("Red", VariantShape::Unit, vec![strum(&[("message", "Red")])])],
    );
    assert_eq!(
        generate(&ast),
        "impl :: strum :: EnumMessage for Color { \
         fn get_message ( & self ) -> :: std :: option :: Option < & str > { \
         match self { & Color :: Red => :: std :: option :: Option :: Some ( \"Red\" ) } } \
         fn get_detailed_message ( & self ) -> :: std :: option :: Option < & str > { \
         match self { & Color :: Red => :: std :: option :: Option :: Some ( \"Red\" ) } } \
         fn get_serializations ( & self ) -> & [ & str ] { \
         match self { & Color :: Red => { \
         static ARR : [ & 'static str ; 1usize ] = [ \"Red\" ] ; & ARR } } } }"
    );
}

#[test]
fn variant_without_message_brings_a_fallback_arm() {
    let ast = plain_enum(
        "Color",
        vec![
            variant("Red", VariantShape::Unit, vec![strum(&[("message", "Red")])]),
            variant("Green", VariantShape::Unit, vec![]),
        ],
    );
    let red = some_arm("& Color :: Red", "\"Red\"");
    let expected = whole(
        "impl :: strum :: EnumMessage for Color",
        &[red.clone(), NONE_ARM.to_string()],
        &[red, NONE_ARM.to_string()],
        &[
            names_arm("& Color :: Red", 1, "\"Red\""),
            names_arm("& Color :: Green", 1, "\"Green\""),
        ],
    );
    assert_eq!(generate(&ast), expected);
}

#[test]
fn every_variant_with_a_message_leaves_no_fallback() {
    let ast = plain_enum(
        "Color",
        vec![
            variant("Red", VariantShape::Unit, vec![strum(&[("message", "Red")])]),
            variant("Green", VariantShape::Unit, vec![strum(&[("message", "Green")])]),
        ],
    );
    let text = generate(&ast);
    assert!(!text.contains("None"));
    assert!(!text.contains("_ =>"));
}

#[test]
fn no_messages_at_all_leave_only_the_fallback() {
    let ast = plain_enum(
        "Color",
        vec![
            variant("Red", VariantShape::Unit, vec![]),
            variant("Green", VariantShape::Unit, vec![]),
        ],
    );
    let expected = whole(
        "impl :: strum :: EnumMessage for Color",
        &[NONE_ARM.to_string()],
        &[NONE_ARM.to_string()],
        &[
            names_arm("& Color :: Red", 1, "\"Red\""),
            names_arm("& Color :: Green", 1, "\"Green\""),
        ],
    );
    assert_eq!(generate(&ast), expected);
}

#[test]
fn enum_without_variants_has_empty_tables() {
    let ast = plain_enum("Never", vec![]);
    let expected = whole("impl :: strum :: EnumMessage for Never", &[], &[], &[]);
    assert_eq!(generate(&ast), expected);
}

#[test]
fn detailed_message_replaces_the_message_in_its_own_table() {
    let ast = plain_enum(
        "Color",
        vec![variant(
            "Red",
            VariantShape::Unit,
            vec![strum(&[("message", "Red"), ("detailed_message", "This is very red")])],
        )],
    );
    let expected = whole(
        "impl :: strum :: EnumMessage for Color",
        &[some_arm("& Color :: Red", "\"Red\"")],
        &[some_arm("& Color :: Red", "\"This is very red\"")],
        &[names_arm("& Color :: Red", 1, "\"Red\"")],
    );
    assert_eq!(generate(&ast), expected);
}

#[test]
fn detailed_message_alone_leaves_get_message_without_an_arm() {
    let ast = plain_enum(
        "Color",
        vec![variant(
            "Red",
            VariantShape::Unit,
            vec![strum(&[("detailed_message", "This is very red")])],
        )],
    );
    let expected = whole(
        "impl :: strum :: EnumMessage for Color",
        &[NONE_ARM.to_string()],
        &[some_arm("& Color :: Red", "\"This is very red\"")],
        &[names_arm("& Color :: Red", 1, "\"Red\"")],
    );
    assert_eq!(generate(&ast), expected);
}

#[test]
fn properties_may_stand_in_separate_attributes() {
    let ast = plain_enum(
        "Color",
        vec![variant(
            "Red",
            VariantShape::Unit,
            vec![
                strum(&[("message", "Red")]),
                Attribute::Other,
                strum(&[("detailed_message", "Deep red")]),
            ],
        )],
    );
    let expected = whole(
        "impl :: strum :: EnumMessage for Color",
        &[some_arm("& Color :: Red", "\"Red\"")],
        &[some_arm("& Color :: Red", "\"Deep red\"")],
        &[names_arm("& Color :: Red", 1, "\"Red\"")],
    );
    assert_eq!(generate(&ast), expected);
}

#[test]
fn disabled_variant_keeps_its_names_and_loses_its_messages() {
    let ast = plain_enum(
        "Color",
        vec![
            variant(
                "Red",
                VariantShape::Unit,
                vec![strum(&[
                    ("message", "Red"),
                    ("detailed_message", "Deep red"),
                    ("disabled", "true"),
                ])],
            ),
            variant("Green", VariantShape::Unit, vec![strum(&[("message", "Green")])]),
        ],
    );
    let green = some_arm("& Color :: Green", "\"Green\"");
    let expected = whole(
        "impl :: strum :: EnumMessage for Color",
        &[green.clone(), NONE_ARM.to_string()],
        &[green, NONE_ARM.to_string()],
        &[
            names_arm("& Color :: Red", 1, "\"Red\""),
            names_arm("& Color :: Green", 1, "\"Green\""),
        ],
    );
    assert_eq!(generate(&ast), expected);
}

#[test]
fn disabled_with_another_value_does_not_disable() {
    let ast = plain_enum(
        "Color",
        vec![variant(
            "Red",
            VariantShape::Unit,
            vec![strum(&[("message", "Red"), ("disabled", "false")])],
        )],
    );
    let red = some_arm("& Color :: Red", "\"Red\"");
    let expected = whole(
        "impl :: strum :: EnumMessage for Color",
        &[red.clone()],
        &[red],
        &[names_arm("& Color :: Red", 1, "\"Red\"")],
    );
    assert_eq!(generate(&ast), expected);
}

#[test]
fn tuple_and_struct_variants_are_matched_with_wildcards() {
    let ast = plain_enum(
        "Shape",
        vec![
            variant("Circle", VariantShape::Tuple, vec![strum(&[("message", "round")])]),
            variant("Rect", VariantShape::Struct, vec![strum(&[("message", "boxy")])]),
        ],
    );
    let circle = some_arm("& Shape :: Circle (..)", "\"round\"");
    let rect = some_arm("& Shape :: Rect {..}", "\"boxy\"");
    let expected = whole(
        "impl :: strum :: EnumMessage for Shape",
        &[circle.clone(), rect.clone()],
        &[circle, rect],
        &[
            names_arm("& Shape :: Circle (..)", 1, "\"Circle\""),
            names_arm("& Shape :: Rect {..}", 1, "\"Rect\""),
        ],
    );
    assert_eq!(generate(&ast), expected);
}

#[test]
fn serialize_values_replace_the_variant_name_in_order() {
    let ast = plain_enum(
        "Color",
        vec![variant(
            "Blue",
            VariantShape::Unit,
            vec![strum(&[("serialize", "b")]), strum(&[("serialize", "blue")])],
        )],
    );
    let expected = whole(
        "impl :: strum :: EnumMessage for Color",
        &[NONE_ARM.to_string()],
        &[NONE_ARM.to_string()],
        &[names_arm("& Color :: Blue", 2, "\"b\" , \"blue\"")],
    );
    assert_eq!(generate(&ast), expected);
}

#[test]
fn count_of_names_is_written_in_decimal() {
    let values = ["a", "b", "c", "d", "e", "f", "g", "h", "i", "j", "k", "l"];
    let props: Vec<(&str, &str)> = values.iter().map(|v| ("serialize", *v)).collect();
    let ast = plain_enum("Letter", vec![variant("Any", VariantShape::Unit, vec![strum(&props)])]);
    let literals: Vec<String> = values.iter().map(|v| format!("\"{}\"", v)).collect();
    let text = generate(&ast);
    assert!(text.contains("[ & 'static str ; 12usize ]"));
    assert!(text.contains(&format!("= [ {} ] ;", literals.join(" , "))));
}

#[test]
fn messages_are_written_as_escaped_literals() {
    let ast = plain_enum(
        "Quote",
        vec![variant(
            "Said",
            VariantShape::Unit,
            vec![strum(&[("message", "say \"hi\"\n\\ it's")])],
        )],
    );
    let text = generate(&ast);
    assert!(text.contains("Some ( \"say \\\"hi\\\"\\n\\\\ it's\" )"));
}

#[test]
fn control_characters_are_written_with_a_backslash() {
    let ast = plain_enum(
        "Quote",
        vec![variant(
            "Raw",
            VariantShape::Unit,
            vec![strum(&[("message", "a\0b\tc\rd~ !")])],
        )],
    );
    let text = generate(&ast);
    assert!(text.contains("Some ( \"a\\0b\\tc\\rd~ !\" )"));
}

#[test]
fn other_characters_are_written_as_unicode_escapes() {
    let ast = plain_enum(
        "Quote",
        vec![variant(
            "Accent",
            VariantShape::Unit,
            vec![strum(&[("message", "caf\u{e9}\u{7f}")])],
        )],
    );
    let text = generate(&ast);
    assert!(text.contains("Some ( \"caf\\u{e9}\\u{7f}\" )"));
}

#[test]
fn generics_and_where_clause_stand_in_the_header() {
    let ast = DeriveInput {
        ident: "Wrapper".to_string(),
        impl_generics: "< T >".to_string(),
        ty_generics: "< T >".to_string(),
        where_clause: "where T : Clone".to_string(),
        body: Body::Enum(vec![]),
    };
    let expected = whole(
        "impl < T > :: strum :: EnumMessage for Wrapper < T > where T : Clone",
        &[],
        &[],
        &[],
    );
    assert_eq!(generate(&ast), expected);
}

#[test]
fn attributes_of_other_names_are_not_read() {
    let other = Attribute::List {
        name: "serde".to_string(),
        items: vec![NestedItem::Property {
            name: "message".to_string(),
            value: "not ours".to_string(),
        }],
    };
    let ast = plain_enum(
        "Color",
        vec![variant("Red", VariantShape::Unit, vec![other, strum(&[("message", "Red")])])],
    );
    let text = generate(&ast);
    assert!(!text.contains("not ours"));
    assert!(text.contains("Some ( \"Red\" )"));
}

#[test]
fn a_struct_is_not_well_formed() {
    let ast = DeriveInput {
        ident: "Point".to_string(),
        impl_generics: String::new(),
        ty_generics: String::new(),
        where_clause: String::new(),
        body: Body::Struct,
    };
    assert!(!is_well_formed(&ast));
}

#[test]
fn repeated_properties_are_not_well_formed() {
    for prop in ["message", "detailed_message", "disabled"] {
        let ast = plain_enum(
            "Color",
            vec![
                variant("Red", VariantShape::Unit, vec![]),
                variant(
                    "Green",
                    VariantShape::Unit,
                    vec![strum(&[(prop, "true")]), strum(&[(prop, "true")])],
                ),
            ],
        );
        assert!(!is_well_formed(&ast), "{}", prop);
    }
}

#[test]
fn repeated_serialize_is_well_formed() {
    let ast = plain_enum(
        "Color",
        vec![variant(
            "Red",
            VariantShape::Unit,
            vec![strum(&[("serialize", "r"), ("serialize", "red"), ("message", "Red")])],
        )],
    );
    assert!(is_well_formed(&ast));
}

#[test]
fn validate_accepts_a_well_formed_enum() {
    let ast = plain_enum(
        "Color",
        vec![variant(
            "Red",
            VariantShape::Unit,
            vec![strum(&[("message", "Red"), ("detailed_message", "Deep"), ("disabled", "no")])],
        )],
    );
    assert_eq!(validate(&ast), Ok(()));
    assert_eq!(validate(&plain_enum("Never", vec![])), Ok(()));
}

#[test]
fn validate_rejects_a_struct() {
    let ast = DeriveInput {
        ident: "Point".to_string(),
        impl_generics: String::new(),
        ty_generics: String::new(),
        where_clause: String::new(),
        body: Body::Struct,
    };
    assert_eq!(validate(&ast), Err(Rejection::NotAnEnum));
    assert_eq!(try_enum_message(&ast).err(), Some(Rejection::NotAnEnum));
}

#[test]
fn validate_names_the_first_variant_and_property_at_fault() {
    let twice = |prop: &str| vec![strum(&[(prop, "x"), (prop, "y")])];
    let ast = plain_enum(
        "Color",
        vec![
            variant("Red", VariantShape::Unit, vec![strum(&[("message", "Red")])]),
            variant("Green", VariantShape::Unit, twice("disabled")),
            variant("Blue", VariantShape::Unit, twice("message")),
        ],
    );
    assert_eq!(
        validate(&ast),
        Err(Rejection::Repeated { variant: 1, property: SingleProperty::Disabled })
    );

    let mut attrs = twice("disabled");
    attrs.extend(twice("detailed_message"));
    attrs.extend(twice("message"));
    let ast = plain_enum("Color", vec![variant("Red", VariantShape::Unit, attrs)]);
    assert_eq!(
        validate(&ast),
        Err(Rejection::Repeated { variant: 0, property: SingleProperty::Message })
    );

    let mut attrs = twice("disabled");
    attrs.extend(twice("detailed_message"));
    let ast = plain_enum("Color", vec![variant("Red", VariantShape::Unit, attrs)]);
    assert_eq!(
        try_enum_message(&ast).err(),
        Some(Rejection::Repeated { variant: 0, property: SingleProperty::DetailedMessage })
    );
}

#[test]
fn try_enum_message_generates_what_enum_message_inner_does() {
    let ast = plain_enum(
        "Color",
        vec![
            variant("Red", VariantShape::Unit, vec![strum(&[("message", "Red")])]),
            variant("Green", VariantShape::Tuple, vec![]),
        ],
    );
    assert_eq!(try_enum_message(&ast).ok(), Some(enum_message_inner(&ast)));
}

#[test]
fn single_properties_carry_their_attribute_names() {
    assert_eq!(SingleProperty::Message.name(), "message");
    assert_eq!(SingleProperty::DetailedMessage.name(), "detailed_message");
    assert_eq!(SingleProperty::Disabled.name(), "disabled");
}
