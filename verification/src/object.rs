//! PDF objects, as far as dates are concerned.
use vstd::prelude::*;
use vstd::string::StringSliceAdditionalSpecFns;

verus! {

/// How a PDF string object is written: between parentheses or as hex digits.
#[derive(Clone, Copy, Debug, PartialEq, Eq)]
pub enum StringFormat {
    Literal,
    Hexadecimal,
}

/// A PDF object, as far as dates are concerned: the scalar kinds of the
/// format, of which a date is carried by a string.
#[derive(Clone, Debug, PartialEq, Eq)]
pub enum Object {
    Null,
    Boolean(bool),
    Integer(i64),
    Name(Vec<u8>),
    String(Vec<u8>, StringFormat),
    Reference(u32, u16),
}

impl Object {
    /// A literal string object holding the bytes of `text`.
    pub fn string_literal(text: &str) -> (object: Object)
        ensures
            object matches Object::String(bytes, StringFormat::Literal) && bytes@ == text.spec_bytes(),
    {
        Object::String(str_bytes(text), StringFormat::Literal)
    }
}

/// The UTF-8 bytes of `text`, in a vector of their own.
pub(crate) fn str_bytes(text: &str) -> (out: Vec<u8>)
    ensures
        out@ == text.spec_bytes(),
{
    let bytes = text.as_bytes();
    let mut out: Vec<u8> = Vec::new();
    let mut i: usize = 0;
    while i < bytes.len()
        invariant
            i <= bytes@.len(),
            out@ == bytes@.subrange(0, i as int),
        decreases bytes@.len() - i,
    {
        out.push(bytes[i]);
        i += 1;
    }
    assert(bytes@.subrange(0, bytes@.len() as int) =~= bytes@);
    out
}

} // verus!
