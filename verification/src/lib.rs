//! Code generation for the `EnumMessage` trait: from the description of an
//! enum and the `strum` attributes on its variants to the tokens of the
//! trait's implementation.

pub mod enum_messages;
pub mod helpers;
pub mod model;
pub mod tokens;
