use vstd::prelude::*;

verus! {

/// A byte-order choice for the endianness-dispatching accessors: little,
/// big, or whichever the machine itself uses.
#[derive(Clone, Copy, Debug, PartialEq, Eq, Structural)]
pub enum Endianess {
    Little,
    Big,
    Native,
}

/// What a closed reader or writer hands back: the owned buffer, the borrowed
/// buffer, or the mutable borrow it was built over.
pub enum DataType<'a> {
    Vec(Vec<u8>),
    VecRef(&'a Vec<u8>),
    VecMut(&'a mut Vec<u8>),
}

/// The mathematical description of what a close call hands back: which
/// kind of source, and the bytes it holds.
pub enum ClosedData {
    Owned(Seq<u8>),
    Borrowed(Seq<u8>),
    BorrowedMut(Seq<u8>),
    Nothing,
}

/// The description of a handed-back source.
pub open spec fn closed_desc_of(d: Option<DataType>) -> ClosedData {
    match d {
        Some(DataType::Vec(v)) => ClosedData::Owned(v@),
        Some(DataType::VecRef(v)) => ClosedData::Borrowed(v@),
        Some(DataType::VecMut(v)) => ClosedData::BorrowedMut((*v)@),
        None => ClosedData::Nothing,
    }
}

} // verus!
