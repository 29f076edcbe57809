//! The implementation of `EnumMessage` that is generated for an enum.

use crate::helpers::{extract_attrs, extracted, is_disabled, texts, unique_attr};
use crate::model::{Body, DeriveInput, Variant, VariantShape};
use crate::tokens::{clone_tokens, into_text, rendered, render, str_literal, tokens_text, usize_literal, Writer};
use vstd::prelude::*;

verus! {

/// The values of `#[strum(message = "..")]` on a variant.
pub open spec fn messages(v: Variant) -> Seq<Seq<char>> {
    extracted(v.attrs@, "strum"@, "message"@)
}

/// The values of `#[strum(detailed_message = "..")]` on a variant.
pub open spec fn detailed_messages(v: Variant) -> Seq<Seq<char>> {
    extracted(v.attrs@, "strum"@, "detailed_message"@)
}

/// Whether a variant is left out of the messages.
pub open spec fn disabled(v: Variant) -> bool {
    extracted(v.attrs@, "strum"@, "disabled"@) == seq!["true"@]
}

/// The names that a variant is written as: the values of
/// `#[strum(serialize = "..")]`, or the variant's own name where there is
/// none.
pub open spec fn serializations(v: Variant) -> Seq<Seq<char>> {
    let given = extracted(v.attrs@, "strum"@, "serialize"@);
    if given.len() == 0 {
        seq![v.ident@]
    } else {
        given
    }
}

/// A variant gives `message`, `detailed_message` and `disabled` at most one
/// value each.
pub open spec fn variant_well_formed(v: Variant) -> bool {
    &&& messages(v).len() <= 1
    &&& detailed_messages(v).len() <= 1
    &&& extracted(v.attrs@, "strum"@, "disabled"@).len() <= 1
}

/// The declaration is an enum, and each of its variants is well formed.
pub open spec fn well_formed(ast: DeriveInput) -> bool {
    &&& ast.body is Enum
    &&& forall|i: int|
        0 <= i < ast.variants().len() ==> variant_well_formed(#[trigger] ast.variants()[i])
}

/// A property that a variant may give one value at most.
#[derive(Clone, Copy, Debug, PartialEq, Eq, Structural)]
pub enum SingleProperty {
    Message,
    DetailedMessage,
    Disabled,
}

impl SingleProperty {
    /// The property's name as it is written in an attribute.
    pub open spec fn spec_name(self) -> Seq<char> {
        match self {
            SingleProperty::Message => "message"@,
            SingleProperty::DetailedMessage => "detailed_message"@,
            SingleProperty::Disabled => "disabled"@,
        }
    }

    /// The property's name as it is written in an attribute.
    pub fn name(self) -> (name: &'static str)
        ensures
            name@ == self.spec_name(),
    {
        match self {
            SingleProperty::Message => "message",
            SingleProperty::DetailedMessage => "detailed_message",
            SingleProperty::Disabled => "disabled",
        }
    }
}

/// Why no implementation can be generated for a declaration.
#[derive(Clone, Copy, Debug, PartialEq, Eq, Structural)]
pub enum Rejection {
    /// The declaration is no enum.
    NotAnEnum,
    /// The variant at the index `variant` gives `property` more than one
    /// value.
    Repeated { variant: usize, property: SingleProperty },
}

/// The first property, in the order `message`, `detailed_message`,
/// `disabled`, that a variant gives more than one value.
pub open spec fn first_repeated(v: Variant) -> Option<SingleProperty> {
    if messages(v).len() > 1 {
        Some(SingleProperty::Message)
    } else if detailed_messages(v).len() > 1 {
        Some(SingleProperty::DetailedMessage)
    } else if extracted(v.attrs@, "strum"@, "disabled"@).len() > 1 {
        Some(SingleProperty::Disabled)
    } else {
        None
    }
}

/// `reason` names the first thing that is wrong with `ast`: that it is no
/// enum, or the first variant that is not well formed and the first
/// property that it repeats.
pub open spec fn rejected_for(ast: DeriveInput, reason: Rejection) -> bool {
    match reason {
        Rejection::NotAnEnum => ast.body is Struct,
        Rejection::Repeated { variant, property } => {
            &&& ast.body is Enum
            &&& variant < ast.variants().len()
            &&& forall|k: int|
                0 <= k < variant ==> variant_well_formed(#[trigger] ast.variants()[k])
            &&& first_repeated(ast.variants()[variant as int]) == Some(property)
        },
    }
}

/// A well-formed declaration is rejected for no reason, and any other for
/// one reason only.
pub proof fn lemma_rejection_is_unique(ast: DeriveInput, a: Rejection, b: Rejection)
    requires
        rejected_for(ast, a),
    ensures
        !well_formed(ast),
        rejected_for(ast, b) ==> a == b,
{
    match a {
        Rejection::NotAnEnum => {},
        Rejection::Repeated { variant, property } => {
            assert(!variant_well_formed(ast.variants()[variant as int]));
            match b {
                Rejection::NotAnEnum => {},
                Rejection::Repeated { variant: other, property: _ } => {
                    if rejected_for(ast, b) {
                        if other < variant {
                            assert(variant_well_formed(ast.variants()[other as int]));
                        } else if variant < other {
                            assert(variant_well_formed(ast.variants()[variant as int]));
                        }
                    }
                },
            }
        },
    }
}

/// What stands for the data of a variant in a pattern.
pub open spec fn params(shape: VariantShape) -> Seq<char> {
    match shape {
        VariantShape::Unit => ""@,
        VariantShape::Tuple => "(..)"@,
        VariantShape::Struct => "{..}"@,
    }
}

/// `&Name::Variant params =>`
pub open spec fn pattern(name: Seq<char>, v: Variant) -> Seq<Seq<char>> {
    seq!["&"@, name, "::"@, v.ident@, params(v.shape), "=>"@]
}

/// `::std::option::Option`
pub open spec fn option_path() -> Seq<Seq<char>> {
    seq!["::"@, "std"@, "::"@, "option"@, "::"@, "Option"@]
}

/// `&Name::Variant params => ::std::option::Option::Some("msg")`
pub open spec fn some_arm(name: Seq<char>, v: Variant, msg: Seq<char>) -> Seq<Seq<char>> {
    pattern(name, v) + option_path() + seq!["::"@, "Some"@, "("@, str_literal(msg), ")"@]
}

/// `_ => ::std::option::Option::None`
pub open spec fn none_arm() -> Seq<Seq<char>> {
    seq!["_"@, "=>"@] + option_path() + seq!["::"@, "None"@]
}

/// Each string as a string literal, a token sequence of its own.
pub open spec fn literals(strs: Seq<Seq<char>>) -> Seq<Seq<Seq<char>>> {
    strs.map_values(|s: Seq<char>| seq![str_literal(s)])
}

/// The parts one after the other, with a comma between each two.
pub open spec fn separated(parts: Seq<Seq<Seq<char>>>) -> Seq<Seq<char>>
    decreases parts.len(),
{
    if parts.len() == 0 {
        Seq::empty()
    } else if parts.len() == 1 {
        parts[0]
    } else {
        separated(parts.drop_last()) + seq![","@] + parts.last()
    }
}

/// `&Name::Variant params => { static ARR: [&'static str; N] = [names]; &ARR }`
pub open spec fn serialization_arm(name: Seq<char>, v: Variant) -> Seq<Seq<char>> {
    let names = serializations(v);
    pattern(name, v) + seq![
        "{"@,
        "static"@,
        "ARR"@,
        ":"@,
        "["@,
        "&"@,
        "'static"@,
        "str"@,
        ";"@,
        usize_literal(names.len()),
        "]"@,
        "="@,
        "["@,
    ] + separated(literals(names)) + seq!["]"@, ";"@, "&"@, "ARR"@, "}"@]
}

/// Whether a variant has an arm of its own in `get_message`.
pub open spec fn has_message_arm(v: Variant) -> bool {
    !disabled(v) && messages(v).len() > 0
}

/// Whether a variant has an arm of its own in `get_detailed_message`.
pub open spec fn has_detailed_arm(v: Variant) -> bool {
    !disabled(v) && (messages(v).len() > 0 || detailed_messages(v).len() > 0)
}

/// The arm that a variant adds to `get_message`: one with its message,
/// unless it has none or is disabled.
pub open spec fn message_arms_of(name: Seq<char>, v: Variant) -> Seq<Seq<Seq<char>>> {
    if has_message_arm(v) {
        seq![some_arm(name, v, messages(v)[0])]
    } else {
        Seq::empty()
    }
}

/// The arm that a variant adds to `get_detailed_message`: one with its
/// detailed message, or with its message where it has no detailed one;
/// none where it has neither or is disabled.
pub open spec fn detailed_arms_of(name: Seq<char>, v: Variant) -> Seq<Seq<Seq<char>>> {
    if !has_detailed_arm(v) {
        Seq::empty()
    } else if detailed_messages(v).len() > 0 {
        seq![some_arm(name, v, detailed_messages(v)[0])]
    } else {
        seq![some_arm(name, v, messages(v)[0])]
    }
}

/// The arms of `get_message` for the variants `vs`, in their order.
pub open spec fn message_arms(name: Seq<char>, vs: Seq<Variant>) -> Seq<Seq<Seq<char>>>
    decreases vs.len(),
{
    if vs.len() == 0 {
        Seq::empty()
    } else {
        message_arms(name, vs.drop_last()) + message_arms_of(name, vs.last())
    }
}

/// The arms of `get_detailed_message` for the variants `vs`, in their order.
pub open spec fn detailed_arms(name: Seq<char>, vs: Seq<Variant>) -> Seq<Seq<Seq<char>>>
    decreases vs.len(),
{
    if vs.len() == 0 {
        Seq::empty()
    } else {
        detailed_arms(name, vs.drop_last()) + detailed_arms_of(name, vs.last())
    }
}

/// The arms of `get_serializations`: one for each variant of `vs`, in their
/// order.
pub open spec fn serialization_arms(name: Seq<char>, vs: Seq<Variant>) -> Seq<Seq<Seq<char>>>
    decreases vs.len(),
{
    if vs.len() == 0 {
        Seq::empty()
    } else {
        serialization_arms(name, vs.drop_last()).push(serialization_arm(name, vs.last()))
    }
}

/// The arms, followed by one that answers `None` where they are fewer than
/// the `n` variants.
pub open spec fn with_fallback(arms: Seq<Seq<Seq<char>>>, n: nat) -> Seq<Seq<Seq<char>>> {
    if arms.len() < n {
        arms.push(none_arm())
    } else {
        arms
    }
}

/// `fn name(&self) -> ret { match self { arms } }`
pub open spec fn method(name: Seq<char>, ret: Seq<Seq<char>>, arms: Seq<Seq<Seq<char>>>) -> Seq<
    Seq<char>,
> {
    seq!["fn"@, name, "("@, "&"@, "self"@, ")"@, "->"@] + ret + seq![
        "{"@,
        "match"@,
        "self"@,
        "{"@,
    ] + separated(arms) + seq!["}"@, "}"@]
}

/// `::std::option::Option<&str>`
pub open spec fn option_str() -> Seq<Seq<char>> {
    option_path() + seq!["<"@, "&"@, "str"@, ">"@]
}

/// `&[&str]`
pub open spec fn str_slice() -> Seq<Seq<char>> {
    seq!["&"@, "["@, "&"@, "str"@, "]"@]
}

/// `impl generics ::strum::EnumMessage for Name generics where_clause {`
pub open spec fn impl_header(ast: DeriveInput) -> Seq<Seq<char>> {
    seq![
        "impl"@,
        ast.impl_generics@,
        "::"@,
        "strum"@,
        "::"@,
        "EnumMessage"@,
        "for"@,
        ast.ident@,
        ast.ty_generics@,
        ast.where_clause@,
        "{"@,
    ]
}

/// The tokens of the implementation of `EnumMessage` for an enum: the three
/// methods, each a `match` with its arms in the order of the variants.
pub open spec fn impl_tokens(ast: DeriveInput) -> Seq<Seq<char>> {
    let name = ast.ident@;
    let vs = ast.variants();
    impl_header(ast) + method(
        "get_message"@,
        option_str(),
        with_fallback(message_arms(name, vs), vs.len()),
    ) + method(
        "get_detailed_message"@,
        option_str(),
        with_fallback(detailed_arms(name, vs), vs.len()),
    ) + method("get_serializations"@, str_slice(), serialization_arms(name, vs)) + seq!["}"@]
}

/// `get_message` has at most one arm for each variant, and the arm that
/// answers `None` is left out exactly where every variant has an arm of its
/// own.
pub proof fn lemma_message_arms_len(name: Seq<char>, vs: Seq<Variant>)
    ensures
        message_arms(name, vs).len() <= vs.len(),
        message_arms(name, vs).len() == vs.len() <==> forall|i: int|
            0 <= i < vs.len() ==> has_message_arm(#[trigger] vs[i]),
        with_fallback(message_arms(name, vs), vs.len()) == message_arms(name, vs) <==> forall|
            i: int,
        |
            0 <= i < vs.len() ==> has_message_arm(#[trigger] vs[i]),
    decreases vs.len(),
{
    if vs.len() > 0 {
        lemma_message_arms_len(name, vs.drop_last());
        assert(forall|i: int| 0 <= i < vs.len() - 1 ==> vs.drop_last()[i] == vs[i]);
        if message_arms(name, vs).len() == vs.len() {
            assert forall|i: int| 0 <= i < vs.len() implies has_message_arm(#[trigger] vs[i]) by {
                if i < vs.len() - 1 {
                    assert(vs.drop_last()[i] == vs[i]);
                }
            }
        }
    }
}

/// `get_detailed_message` has at most one arm for each variant, and the arm
/// that answers `None` is left out exactly where every variant has an arm of
/// its own.
pub proof fn lemma_detailed_arms_len(name: Seq<char>, vs: Seq<Variant>)
    ensures
        detailed_arms(name, vs).len() <= vs.len(),
        detailed_arms(name, vs).len() == vs.len() <==> forall|i: int|
            0 <= i < vs.len() ==> has_detailed_arm(#[trigger] vs[i]),
        with_fallback(detailed_arms(name, vs), vs.len()) == detailed_arms(name, vs) <==> forall|
            i: int,
        |
            0 <= i < vs.len() ==> has_detailed_arm(#[trigger] vs[i]),
    decreases vs.len(),
{
    if vs.len() > 0 {
        lemma_detailed_arms_len(name, vs.drop_last());
        assert(forall|i: int| 0 <= i < vs.len() - 1 ==> vs.drop_last()[i] == vs[i]);
        if detailed_arms(name, vs).len() == vs.len() {
            assert forall|i: int| 0 <= i < vs.len() implies has_detailed_arm(#[trigger] vs[i]) by {
                if i < vs.len() - 1 {
                    assert(vs.drop_last()[i] == vs[i]);
                }
            }
        }
    }
}

/// `get_serializations` has exactly one arm for each variant.
pub proof fn lemma_serialization_arms_len(name: Seq<char>, vs: Seq<Variant>)
    ensures
        serialization_arms(name, vs).len() == vs.len(),
    decreases vs.len(),
{
    if vs.len() > 0 {
        lemma_serialization_arms_len(name, vs.drop_last());
    }
}

/// Writes the pattern that matches `variant`, and the arrow after it.
fn put_pattern(w: &mut Writer, name: &str, variant: &Variant)
    requires
        old(w).wf(),
    ensures
        final(w).wf(),
        final(w).written() == old(w).written() + pattern(name@, *variant),
{
    let params = match variant.shape {
        VariantShape::Unit => "",
        VariantShape::Tuple => "(..)",
        VariantShape::Struct => "{..}",
    };
    w.token("&");
    w.token(name);
    w.token("::");
    w.token(variant.ident.as_str());
    w.token(params);
    w.token("=>");
    assert(w.written() =~= old(w).written() + pattern(name@, *variant));
}

/// Writes the path of `Option`.
fn put_option_path(w: &mut Writer)
    requires
        old(w).wf(),
    ensures
        final(w).wf(),
        final(w).written() == old(w).written() + option_path(),
{
    w.token("::");
    w.token("std");
    w.token("::");
    w.token("option");
    w.token("::");
    w.token("Option");
    assert(w.written() =~= old(w).written() + option_path());
}

/// The arm that answers `msg` for `variant`.
fn make_some_arm(name: &str, variant: &Variant, msg: &str) -> (arm: quote::Tokens)
    ensures
        tokens_text(arm) == render(some_arm(name@, *variant, msg@)),
{
    let mut w = Writer::new();
    put_pattern(&mut w, name, variant);
    put_option_path(&mut w);
    w.token("::");
    w.token("Some");
    w.token("(");
    w.literal(msg);
    w.token(")");
    assert(w.written() =~= some_arm(name@, *variant, msg@));
    w.finish()
}

/// The arm that answers `None` for every variant without an arm of its own.
fn make_none_arm() -> (arm: quote::Tokens)
    ensures
        tokens_text(arm) == render(none_arm()),
{
    let mut w = Writer::new();
    w.token("_");
    w.token("=>");
    put_option_path(&mut w);
    w.token("::");
    w.token("None");
    assert(w.written() =~= none_arm());
    w.finish()
}

/// Writes the strings as string literals, with commas between them.
fn put_literals(w: &mut Writer, strs: &Vec<&str>)
    requires
        old(w).wf(),
    ensures
        final(w).wf(),
        final(w).written() == old(w).written() + separated(literals(texts(strs@))),
{
    let ghost parts = literals(texts(strs@));
    let mut i: usize = 0;
    assert(w.written() =~= old(w).written() + separated(parts.take(0)));
    while i < strs.len()
        invariant
            i <= strs.len(),
            w.wf(),
            parts == literals(texts(strs@)),
            w.written() == old(w).written() + separated(parts.take(i as int)),
        decreases strs.len() - i,
    {
        if i > 0 {
            w.token(",");
        }
        w.literal(strs[i]);
        proof {
            assert(parts.take(i + 1).drop_last() =~= parts.take(i as int));
            assert(parts.take(i + 1).last() == seq![str_literal(strs@[i as int]@)]);
            assert(w.written() =~= old(w).written() + separated(parts.take(i + 1)));
        }
        i += 1;
    }
    assert(parts.take(i as int) =~= parts);
}

/// Writes the arms, with commas between them.
fn put_separated(w: &mut Writer, arms: &Vec<quote::Tokens>, Ghost(parts): Ghost<Seq<Seq<Seq<char>>>>)
    requires
        old(w).wf(),
        rendered(arms@, parts),
    ensures
        final(w).wf(),
        final(w).written() == old(w).written() + separated(parts),
{
    let mut i: usize = 0;
    assert(w.written() =~= old(w).written() + separated(parts.take(0)));
    while i < arms.len()
        invariant
            i <= arms.len(),
            w.wf(),
            rendered(arms@, parts),
            w.written() == old(w).written() + separated(parts.take(i as int)),
        decreases arms.len() - i,
    {
        if i > 0 {
            w.token(",");
        }
        assert(tokens_text(arms@[i as int]) == render(parts[i as int]));
        w.stream(&arms[i], Ghost(parts[i as int]));
        proof {
            assert(parts.take(i + 1).drop_last() =~= parts.take(i as int));
            assert(parts.take(i + 1).last() == parts[i as int]);
            assert(w.written() =~= old(w).written() + separated(parts.take(i + 1)));
        }
        i += 1;
    }
    assert(parts.take(i as int) =~= parts);
}

/// The arm that answers the names of `variant`.
fn make_serialization_arm(name: &str, variant: &Variant) -> (arm: quote::Tokens)
    ensures
        tokens_text(arm) == render(serialization_arm(name@, *variant)),
{
    let mut names = extract_attrs(variant.attrs.as_slice(), "strum", "serialize");
    if names.len() == 0 {
        names.push(variant.ident.as_str());
        assert(texts(names@) =~= seq![variant.ident@]);
    }
    assert(texts(names@) == serializations(*variant));
    let count = names.len();
    let mut w = Writer::new();
    put_pattern(&mut w, name, variant);
    w.token("{");
    w.token("static");
    w.token("ARR");
    w.token(":");
    w.token("[");
    w.token("&");
    w.token("'static");
    w.token("str");
    w.token(";");
    w.count(count);
    w.token("]");
    w.token("=");
    w.token("[");
    let ghost head = w.written();
    put_literals(&mut w, &names);
    let ghost mid = w.written();
    w.token("]");
    w.token(";");
    w.token("&");
    w.token("ARR");
    w.token("}");
    proof {
        let lits = separated(literals(serializations(*variant)));
        assert(head =~= pattern(name@, *variant) + seq![
            "{"@,
            "static"@,
            "ARR"@,
            ":"@,
            "["@,
            "&"@,
            "'static"@,
            "str"@,
            ";"@,
            usize_literal(serializations(*variant).len()),
            "]"@,
            "="@,
            "["@,
        ]);
        assert(mid == head + lits);
        assert(w.written() =~= mid + seq!["]"@, ";"@, "&"@, "ARR"@, "}"@]);
    }
    w.finish()
}

/// Writes one method: its header, and a `match` on `self` with the arms.
fn put_method(
    w: &mut Writer,
    name: &str,
    optional: bool,
    arms: &Vec<quote::Tokens>,
    Ghost(parts): Ghost<Seq<Seq<Seq<char>>>>,
)
    requires
        old(w).wf(),
        rendered(arms@, parts),
    ensures
        final(w).wf(),
        final(w).written() == old(w).written() + method(
            name@,
            if optional {
                option_str()
            } else {
                str_slice()
            },
            parts,
        ),
{
    w.token("fn");
    w.token(name);
    w.token("(");
    w.token("&");
    w.token("self");
    w.token(")");
    w.token("->");
    let ghost sig = w.written();
    if optional {
        put_option_path(w);
        w.token("<");
        w.token("&");
        w.token("str");
        w.token(">");
        assert(w.written() =~= sig + option_str());
    } else {
        w.token("&");
        w.token("[");
        w.token("&");
        w.token("str");
        w.token("]");
        assert(w.written() =~= sig + str_slice());
    }
    let ghost ret = if optional {
        option_str()
    } else {
        str_slice()
    };
    w.token("{");
    w.token("match");
    w.token("self");
    w.token("{");
    let ghost head = w.written();
    put_separated(w, arms, Ghost(parts));
    w.token("}");
    w.token("}");
    proof {
        assert(sig =~= old(w).written() + seq!["fn"@, name@, "("@, "&"@, "self"@, ")"@, "->"@]);
        assert(head =~= sig + ret + seq!["{"@, "match"@, "self"@, "{"@]);
        assert(w.written() =~= head + separated(parts) + seq!["}"@, "}"@]);
        assert(w.written() =~= old(w).written() + method(name@, ret, parts));
    }
}

/// Looks for what stands in the way of generating an implementation for
/// `ast`, variant by variant in the order of declaration.
pub fn validate(ast: &DeriveInput) -> (outcome: Result<(), Rejection>)
    ensures
        match outcome {
            Ok(_) => well_formed(*ast),
            Err(reason) => rejected_for(*ast, reason),
        },
{
    match &ast.body {
        Body::Struct => Err(Rejection::NotAnEnum),
        Body::Enum(variants) => {
            let mut i: usize = 0;
            while i < variants.len()
                invariant
                    i <= variants.len(),
                    variants@ == ast.variants(),
                    ast.body is Enum,
                    forall|k: int| 0 <= k < i ==> variant_well_formed(#[trigger] variants@[k]),
                decreases variants.len() - i,
            {
                let attrs = variants[i].attrs.as_slice();
                if extract_attrs(attrs, "strum", "message").len() > 1 {
                    return Err(
                        Rejection::Repeated { variant: i, property: SingleProperty::Message },
                    );
                }
                if extract_attrs(attrs, "strum", "detailed_message").len() > 1 {
                    return Err(
                        Rejection::Repeated {
                            variant: i,
                            property: SingleProperty::DetailedMessage,
                        },
                    );
                }
                if extract_attrs(attrs, "strum", "disabled").len() > 1 {
                    return Err(
                        Rejection::Repeated { variant: i, property: SingleProperty::Disabled },
                    );
                }
                i += 1;
            }
            Ok(())
        },
    }
}

/// Whether `ast` is a declaration that an implementation can be generated
/// for.
pub fn is_well_formed(ast: &DeriveInput) -> (ok: bool)
    ensures
        ok == well_formed(*ast),
{
    let outcome = validate(ast);
    proof {
        if let Err(reason) = outcome {
            lemma_rejection_is_unique(*ast, reason, reason);
        }
    }
    outcome.is_ok()
}

/// Generates the implementation of `EnumMessage` for an enum.
///
/// `get_message` and `get_detailed_message` get one arm for each variant
/// that has a message and is not disabled, and a last arm that answers
/// `None` where some variant has none. `get_serializations` gets one arm for
/// every variant, disabled or not.
pub fn enum_message_inner(ast: &DeriveInput) -> (generated: quote::Tokens)
    requires
        well_formed(*ast),
    ensures
        tokens_text(generated) == render(impl_tokens(*ast)),
{
    let name = ast.ident.as_str();
    let variants = match &ast.body {
        Body::Enum(v) => v,
        Body::Struct => vstd::pervasive::unreached(),
    };
    let ghost vs = variants@;

    let mut arms: Vec<quote::Tokens> = Vec::new();
    let mut detailed: Vec<quote::Tokens> = Vec::new();
    let mut serialized: Vec<quote::Tokens> = Vec::new();

    let mut i: usize = 0;
    while i < variants.len()
        invariant
            i <= variants.len(),
            vs == variants@,
            vs == ast.variants(),
            name@ == ast.ident@,
            well_formed(*ast),
            rendered(arms@, message_arms(name@, vs.take(i as int))),
            rendered(detailed@, detailed_arms(name@, vs.take(i as int))),
            rendered(serialized@, serialization_arms(name@, vs.take(i as int))),
        decreases variants.len() - i,
    {
        let variant = &variants[i];
        let ghost v = vs[i as int];
        assert(variant_well_formed(ast.variants()[i as int]));
        assert(vs.take(i + 1).drop_last() =~= vs.take(i as int));
        assert(vs.take(i + 1).last() == v);
        let ghost arms_before = arms@;
        let ghost detailed_before = detailed@;

        let message = unique_attr(variant.attrs.as_slice(), "strum", "message");
        let detailed_message = unique_attr(variant.attrs.as_slice(), "strum", "detailed_message");

        // The names of a variant are generated whether it is disabled or not.
        serialized.push(make_serialization_arm(name, variant));

        if !is_disabled(variant.attrs.as_slice()) {
            if let Some(msg) = message {
                let tokens = make_some_arm(name, variant, msg);
                arms.push(clone_tokens(&tokens));
                if detailed_message.is_none() {
                    detailed.push(tokens);
                }
            }
            if let Some(msg) = detailed_message {
                detailed.push(make_some_arm(name, variant, msg));
            }
        }
        proof {
            let m = message_arms(name@, vs.take(i as int));
            let d = detailed_arms(name@, vs.take(i as int));
            assert(message_arms(name@, vs.take(i + 1)) =~= m + message_arms_of(name@, v));
            assert(detailed_arms(name@, vs.take(i + 1)) =~= d + detailed_arms_of(name@, v));
            assert(m + Seq::<Seq<Seq<char>>>::empty() =~= m);
            assert(d + Seq::<Seq<Seq<char>>>::empty() =~= d);
            if message is Some {
                assert(messages(v)[0] == message.unwrap()@);
            }
            if detailed_message is Some {
                assert(detailed_messages(v)[0] == detailed_message.unwrap()@);
            }
        }
        i += 1;
    }
    assert(vs.take(i as int) =~= vs);

    proof {
        lemma_message_arms_len(name@, vs);
        lemma_detailed_arms_len(name@, vs);
    }
    if arms.len() < variants.len() {
        arms.push(make_none_arm());
    }
    if detailed.len() < variants.len() {
        detailed.push(make_none_arm());
    }
    let ghost message_parts = with_fallback(message_arms(name@, vs), vs.len());
    let ghost detailed_parts = with_fallback(detailed_arms(name@, vs), vs.len());
    assert(rendered(arms@, message_parts));
    assert(rendered(detailed@, detailed_parts));

    let mut w = Writer::new();
    w.token("impl");
    w.token(ast.impl_generics.as_str());
    w.token("::");
    w.token("strum");
    w.token("::");
    w.token("EnumMessage");
    w.token("for");
    w.token(name);
    w.token(ast.ty_generics.as_str());
    w.token(ast.where_clause.as_str());
    w.token("{");
    assert(w.written() =~= impl_header(*ast));
    put_method(&mut w, "get_message", true, &arms, Ghost(message_parts));
    put_method(&mut w, "get_detailed_message", true, &detailed, Ghost(detailed_parts));
    put_method(
        &mut w,
        "get_serializations",
        false,
        &serialized,
        Ghost(serialization_arms(name@, vs)),
    );
    w.token("}");
    assert(w.written() =~= impl_tokens(*ast));
    w.finish()
}

/// The source text of the implementation of `EnumMessage` for an enum: its
/// tokens, parted by single spaces.
pub fn enum_message_text(ast: &DeriveInput) -> (text: String)
    requires
        well_formed(*ast),
    ensures
        text@ == render(impl_tokens(*ast)),
{
    into_text(enum_message_inner(ast))
}

/// Generates the implementation of `EnumMessage` for `ast`, or says why
/// there is none.
pub fn try_enum_message(ast: &DeriveInput) -> (outcome: Result<quote::Tokens, Rejection>)
    ensures
        match outcome {
            Ok(generated) => well_formed(*ast) && tokens_text(generated) == render(
                impl_tokens(*ast),
            ),
            Err(reason) => rejected_for(*ast, reason),
        },
{
    match validate(ast) {
        Ok(_) => Ok(enum_message_inner(ast)),
        Err(reason) => Err(reason),
    }
}

} // verus!
