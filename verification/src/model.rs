//! What the generator reads of a type's declaration, held as plain values.

use vstd::prelude::*;

verus! {

/// One item between the parentheses of a list attribute.
#[derive(Clone, Debug)]
pub enum NestedItem {
    /// `name = "value"`, with a string literal on the right.
    Property { name: String, value: String },
    /// Any other item: a bare word, a nested list, a literal, a value that
    /// is no string.
    Other,
}

/// An attribute on a variant.
#[derive(Clone, Debug)]
pub enum Attribute {
    /// `#[name(items)]`.
    List { name: String, items: Vec<NestedItem> },
    /// An attribute of any other form, such as `#[name]` or `#[name = ".."]`.
    Other,
}

/// The kind of data that a variant carries.
#[derive(Clone, Copy, Debug, PartialEq, Eq, Structural)]
pub enum VariantShape {
    /// `Name`
    Unit,
    /// `Name(..)`
    Tuple,
    /// `Name { .. }`
    Struct,
}

/// A variant of an enum.
#[derive(Clone, Debug)]
pub struct Variant {
    pub ident: String,
    pub attrs: Vec<Attribute>,
    pub shape: VariantShape,
}

/// The body of a declaration.
#[derive(Clone, Debug)]
pub enum Body {
    /// An enum, with its variants in the order of declaration.
    Enum(Vec<Variant>),
    /// A struct.
    Struct,
}

/// A type declaration that a derive is applied to.
#[derive(Clone, Debug)]
pub struct DeriveInput {
    /// The name of the type.
    pub ident: String,
    /// The generics as they stand after `impl`, already written as source
    /// text; empty where the type has none.
    pub impl_generics: String,
    /// The generics as they stand after the type's name.
    pub ty_generics: String,
    /// The `where` clause; empty where the type has none.
    pub where_clause: String,
    pub body: Body,
}

impl DeriveInput {
    /// The variants of an enum; none for a struct.
    pub open spec fn variants(&self) -> Seq<Variant> {
        match self.body {
            Body::Enum(vs) => vs@,
            Body::Struct => Seq::empty(),
        }
    }
}

} // verus!
