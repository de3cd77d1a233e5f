use crate::error::DhError;
use vstd::prelude::*;

verus! {

/// A value with a defined byte form: it can be decoded from a buffer and
/// exposes its own bytes.  [`crate::read::ReadVal::read_dynamic`] reads any
/// such value straight from a stream.
pub trait Dynamic: Sized {
    /// Whether a buffer holds a value of this type.
    spec fn decodable(bytes: Seq<u8>) -> bool;

    /// Whether `v` is the value the buffer decodes to.
    spec fn decodes_to(bytes: Seq<u8>, v: Self) -> bool;

    /// The byte form of this value.
    spec fn encoded(&self) -> Seq<u8>;

    /// Decodes a buffer, refusing one that holds no value of this type.
    fn from_bytes(bytes: Vec<u8>) -> (r: Result<Self, DhError>)
        ensures
            Self::decodable(bytes@) ==> (r matches Ok(v) && Self::decodes_to(bytes@, v)),
            !Self::decodable(bytes@) ==> r == Err::<Self, DhError>(DhError::InvalidData),
    ;

    /// Exposes the byte form of this value.
    fn into_bytes(&self) -> (r: Result<&[u8], DhError>)
        ensures
            r matches Ok(b) && b@ == self.encoded(),
    ;
}

impl Dynamic for Vec<u8> {
    open spec fn decodable(bytes: Seq<u8>) -> bool {
        true
    }

    open spec fn decodes_to(bytes: Seq<u8>, v: Vec<u8>) -> bool {
        v@ == bytes
    }

    open spec fn encoded(&self) -> Seq<u8> {
        self@
    }

    fn from_bytes(bytes: Vec<u8>) -> (r: Result<Vec<u8>, DhError>) {
        Ok(bytes)
    }

    fn into_bytes(&self) -> (r: Result<&[u8], DhError>) {
        Ok(self.as_slice())
    }
}

impl Dynamic for String {
    open spec fn decodable(bytes: Seq<u8>) -> bool {
        vstd::utf8::valid_utf8(bytes)
    }

    open spec fn decodes_to(bytes: Seq<u8>, v: String) -> bool {
        v@ == vstd::utf8::decode_utf8(bytes)
    }

    open spec fn encoded(&self) -> Seq<u8> {
        vstd::utf8::encode_utf8(self@)
    }

    fn from_bytes(bytes: Vec<u8>) -> (r: Result<String, DhError>) {
        match crate::read::string_from_utf8(bytes) {
            Some(s) => Ok(s),
            None => Err(DhError::InvalidData),
        }
    }

    fn into_bytes(&self) -> (r: Result<&[u8], DhError>) {
        Ok(self.as_str().as_bytes())
    }
}

} // verus!
