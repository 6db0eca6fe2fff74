use vstd::prelude::*;

verus! {

/// What can go wrong in a conversion, by kind, so that callers can branch.
#[derive(Debug, Clone, PartialEq, Eq)]
pub enum ConvertError {
    /// The input text is not valid in its format; the parser's message.
    ParseError(String),
    /// A float is an infinity or a NaN, which the target format cannot hold.
    InvalidNumber,
    /// The root of the tree is not a table, which the config-style format needs.
    UnsupportedRoot,
    /// A native object holds something the value tree cannot represent.
    BridgeTypeError(String),
    /// The serializer refused a tree.
    SerializeError(String),
}

} // verus!
