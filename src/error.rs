use vstd::prelude::*;

verus! {

/// What can go wrong while reading a value out of a wire tree.
#[derive(Debug, PartialEq, Eq)]
pub enum Error {
    /// A token outside a closed vocabulary; carries the token.
    UnknownVariant(String),
    /// A required attribute is absent; carries its name.
    MissingAttribute(String),
    /// A required child node is absent; carries its name.
    MissingChild(String),
    /// An attribute value could not be parsed; carries its name and raw value.
    MalformedValue(String, String),
}

} // verus!
