use crate::data::{copy_range, owned_model, vec_alloc, vec_read_bytes, vec_write_bytes};
use crate::error::DhError;
use crate::limited::RootStream;
use crate::read::{read_post, ReadSeek, ReadVal, Readable};
use crate::rw::Rw;
use crate::seek::{SeekFrom, Seekable, StreamModel};
use crate::types::DataType;
use crate::write::{write_post, Writable, WriteSeek, WriteVal};
use vstd::prelude::*;

verus! {

/// The model every borrowed in-memory stream presents: the buffer's bytes
/// at the current position, no window, and a size plain writes cannot
/// change.  Only [`Writable::allocate`] resizes a mutably borrowed buffer.
pub open spec fn borrowed_model(bytes: Seq<u8>, pos: int) -> StreamModel {
    StreamModel { bytes, pos, start: 0, end: 0, bounded: false, growable: false }
}

/// A reader over a borrowed byte buffer.
pub struct RRefData<'a> {
    data: &'a Vec<u8>,
    pos: u64,
}

impl<'a> RootStream for RRefData<'a> {
    proof fn rooted(&self) {
    }
}

impl<'a> Seekable for RRefData<'a> {
    closed spec fn sm(&self) -> StreamModel {
        borrowed_model(self.data@, self.pos as int)
    }

    fn seek(&mut self, from: SeekFrom) -> (r: Result<u64, DhError>) {
        let target: i128 = match from {
            SeekFrom::Start(x) => x as i128,
            SeekFrom::End(x) => self.data.len() as i128 + x as i128,
            SeekFrom::Current(x) => self.pos as i128 + x as i128,
        };
        if target < 0 || target > u64::MAX as i128 {
            Err(DhError::InvalidInput)
        } else {
            self.pos = target as u64;
            Ok(self.pos)
        }
    }
}

impl<'a> ReadSeek for RRefData<'a> {
    fn read_bytes(&mut self, length: u64) -> (r: Result<Vec<u8>, DhError>) {
        ref_read_bytes(self.data, &mut self.pos, length)
    }
}

impl<'a> ReadVal for RRefData<'a> {

}

impl<'a> Readable<'a> for RRefData<'a> {
    closed spec fn closed_desc(self) -> crate::types::ClosedData {
        crate::types::ClosedData::Borrowed(self.data@)
    }

    fn lock(&mut self, block: bool) -> (r: Result<(), DhError>) {
        Ok(())
    }

    fn unlock(&mut self) -> (r: Result<(), DhError>) {
        Ok(())
    }

    fn close(self) -> (r: Result<Option<DataType<'a>>, DhError>) {
        Ok(Some(DataType::VecRef(self.data)))
    }
}

/// Reads from a borrowed buffer; the model is the fixed-size one.
fn ref_read_bytes(data: &Vec<u8>, pos: &mut u64, length: u64) -> (r: Result<Vec<u8>, DhError>)
    ensures
        read_post(
            borrowed_model(data@, *old(pos) as int),
            length as nat,
            borrowed_model(data@, *final(pos) as int),
            r,
        ),
{
    let len = data.len() as u64;
    if *pos > len || length > len - *pos {
        return Err(DhError::UnexpectedEof);
    }
    let r = copy_range(data, *pos as usize, length as usize);
    *pos = *pos + length;
    Ok(r)
}

/// Writes into a borrowed buffer in place: plain writes cannot grow the
/// buffer, so the whole range must already exist.
fn ref_write_bytes(data: &mut Vec<u8>, pos: &mut u64, buf: &[u8]) -> (r: Result<(), DhError>)
    ensures
        write_post(
            borrowed_model(old(data)@, *old(pos) as int),
            buf@,
            borrowed_model(final(data)@, *final(pos) as int),
            r,
        ),
{
    let ghost m = borrowed_model(data@, *pos as int);
    let len = data.len();
    let n = buf.len();
    if *pos > len as u64 || n as u64 > len as u64 - *pos {
        return Err(DhError::UnexpectedEof);
    }
    let p = *pos as usize;
    let mut i: usize = 0;
    while i < n
        invariant
            i <= n == buf@.len(),
            p + n <= usize::MAX,
            p + n <= data@.len() == m.bytes.len(),
            forall|k: int| 0 <= k < p ==> data@[k] == m.bytes[k],
            forall|k: int| p <= k < p + i ==> data@[k] == buf@[k - p],
            forall|k: int| p + i <= k < data@.len() ==> data@[k] == m.bytes[k],
        decreases n - i,
    {
        data[p + i] = buf[i];
        i = i + 1;
    }
    *pos = *pos + n as u64;
    proof {
        assert(data@ =~= m.spliced(buf@));
    }
    Ok(())
}

/// A writer over a mutably borrowed byte buffer.
pub struct WRefData<'a> {
    data: &'a mut Vec<u8>,
    pos: u64,
}

impl<'a> RootStream for WRefData<'a> {
    proof fn rooted(&self) {
    }
}

impl<'a> Seekable for WRefData<'a> {
    closed spec fn sm(&self) -> StreamModel {
        borrowed_model((*self.data)@, self.pos as int)
    }

    fn seek(&mut self, from: SeekFrom) -> (r: Result<u64, DhError>) {
        let target: i128 = match from {
            SeekFrom::Start(x) => x as i128,
            SeekFrom::End(x) => self.data.len() as i128 + x as i128,
            SeekFrom::Current(x) => self.pos as i128 + x as i128,
        };
        if target < 0 || target > u64::MAX as i128 {
            Err(DhError::InvalidInput)
        } else {
            self.pos = target as u64;
            Ok(self.pos)
        }
    }
}

impl<'a> WriteSeek for WRefData<'a> {
    fn write_bytes(&mut self, buf: &[u8]) -> (r: Result<(), DhError>) {
        ref_write_bytes(self.data, &mut self.pos, buf)
    }
}

impl<'a> WriteVal for WRefData<'a> {

}

impl<'a> Writable<'a> for WRefData<'a> {
    closed spec fn closed_desc(self) -> crate::types::ClosedData {
        crate::types::ClosedData::BorrowedMut((*self.data)@)
    }

    fn allocate(&mut self, len: u64) -> (r: Result<(), DhError>) {
        vec_alloc(self.data, len)
    }

    fn flush(&mut self) -> (r: Result<(), DhError>) {
        Ok(())
    }

    fn lock(&mut self, block: bool) -> (r: Result<(), DhError>) {
        Ok(())
    }

    fn unlock(&mut self) -> (r: Result<(), DhError>) {
        Ok(())
    }

    fn close(self) -> (r: Result<Option<DataType<'a>>, DhError>) {
        Ok(Some(DataType::VecMut(self.data)))
    }
}

/// A reader and writer over a mutably borrowed byte buffer.
pub struct RwRefData<'a> {
    data: &'a mut Vec<u8>,
    pos: u64,
}

impl<'a> RootStream for RwRefData<'a> {
    proof fn rooted(&self) {
    }
}

impl<'a> Seekable for RwRefData<'a> {
    closed spec fn sm(&self) -> StreamModel {
        borrowed_model((*self.data)@, self.pos as int)
    }

    fn seek(&mut self, from: SeekFrom) -> (r: Result<u64, DhError>) {
        let target: i128 = match from {
            SeekFrom::Start(x) => x as i128,
            SeekFrom::End(x) => self.data.len() as i128 + x as i128,
            SeekFrom::Current(x) => self.pos as i128 + x as i128,
        };
        if target < 0 || target > u64::MAX as i128 {
            Err(DhError::InvalidInput)
        } else {
            self.pos = target as u64;
            Ok(self.pos)
        }
    }
}

impl<'a> ReadSeek for RwRefData<'a> {
    fn read_bytes(&mut self, length: u64) -> (r: Result<Vec<u8>, DhError>) {
        ref_read_bytes(self.data, &mut self.pos, length)
    }
}

impl<'a> ReadVal for RwRefData<'a> {

}

impl<'a> WriteSeek for RwRefData<'a> {
    fn write_bytes(&mut self, buf: &[u8]) -> (r: Result<(), DhError>) {
        ref_write_bytes(self.data, &mut self.pos, buf)
    }
}

impl<'a> WriteVal for RwRefData<'a> {

}

impl<'a> Readable<'a> for RwRefData<'a> {
    closed spec fn closed_desc(self) -> crate::types::ClosedData {
        crate::types::ClosedData::BorrowedMut((*self.data)@)
    }

    fn lock(&mut self, block: bool) -> (r: Result<(), DhError>) {
        Ok(())
    }

    fn unlock(&mut self) -> (r: Result<(), DhError>) {
        Ok(())
    }

    fn close(self) -> (r: Result<Option<DataType<'a>>, DhError>) {
        Ok(Some(DataType::VecMut(self.data)))
    }
}

impl<'a> Writable<'a> for RwRefData<'a> {
    closed spec fn closed_desc(self) -> crate::types::ClosedData {
        crate::types::ClosedData::BorrowedMut((*self.data)@)
    }

    fn allocate(&mut self, len: u64) -> (r: Result<(), DhError>) {
        vec_alloc(self.data, len)
    }

    fn flush(&mut self) -> (r: Result<(), DhError>) {
        Ok(())
    }

    fn lock(&mut self, block: bool) -> (r: Result<(), DhError>) {
        Ok(())
    }

    fn unlock(&mut self) -> (r: Result<(), DhError>) {
        Ok(())
    }

    fn close(self) -> (r: Result<Option<DataType<'a>>, DhError>) {
        Ok(Some(DataType::VecMut(self.data)))
    }
}

impl<'a> Rw<'a> for RwRefData<'a> {
    closed spec fn rw_closed_desc(self) -> crate::types::ClosedData {
        crate::types::ClosedData::BorrowedMut((*self.data)@)
    }

    fn rw_close(self) -> (r: Result<Option<DataType<'a>>, DhError>) {
        Ok(Some(DataType::VecMut(self.data)))
    }
}

/// The borrowed streams [`close`] can recover a shared reference from.
pub enum ClosableRefData<'a> {
    R(RRefData<'a>),
    W(WRefData<'a>),
    Rw(RwRefData<'a>),
}

/// The borrowed streams [`close_mut`] can recover a mutable reference from.
pub enum ClosableMutData<'a> {
    W(WRefData<'a>),
    Rw(RwRefData<'a>),
}

impl<'a> From<RRefData<'a>> for ClosableRefData<'a> {
    fn from(r: RRefData<'a>) -> (c: ClosableRefData<'a>) {
        ClosableRefData::R(r)
    }
}

impl<'a> vstd::std_specs::convert::FromSpecImpl<RRefData<'a>> for ClosableRefData<'a> {
    open spec fn obeys_from_spec() -> bool {
        true
    }

    open spec fn from_spec(r: RRefData<'a>) -> ClosableRefData<'a> {
        ClosableRefData::R(r)
    }
}

impl<'a> From<WRefData<'a>> for ClosableRefData<'a> {
    fn from(w: WRefData<'a>) -> (c: ClosableRefData<'a>) {
        ClosableRefData::W(w)
    }
}

impl<'a> vstd::std_specs::convert::FromSpecImpl<WRefData<'a>> for ClosableRefData<'a> {
    open spec fn obeys_from_spec() -> bool {
        true
    }

    open spec fn from_spec(w: WRefData<'a>) -> ClosableRefData<'a> {
        ClosableRefData::W(w)
    }
}

impl<'a> From<RwRefData<'a>> for ClosableRefData<'a> {
    fn from(rw: RwRefData<'a>) -> (c: ClosableRefData<'a>) {
        ClosableRefData::Rw(rw)
    }
}

impl<'a> vstd::std_specs::convert::FromSpecImpl<RwRefData<'a>> for ClosableRefData<'a> {
    open spec fn obeys_from_spec() -> bool {
        true
    }

    open spec fn from_spec(rw: RwRefData<'a>) -> ClosableRefData<'a> {
        ClosableRefData::Rw(rw)
    }
}

impl<'a> From<WRefData<'a>> for ClosableMutData<'a> {
    fn from(w: WRefData<'a>) -> (c: ClosableMutData<'a>) {
        ClosableMutData::W(w)
    }
}

impl<'a> vstd::std_specs::convert::FromSpecImpl<WRefData<'a>> for ClosableMutData<'a> {
    open spec fn obeys_from_spec() -> bool {
        true
    }

    open spec fn from_spec(w: WRefData<'a>) -> ClosableMutData<'a> {
        ClosableMutData::W(w)
    }
}

impl<'a> From<RwRefData<'a>> for ClosableMutData<'a> {
    fn from(rw: RwRefData<'a>) -> (c: ClosableMutData<'a>) {
        ClosableMutData::Rw(rw)
    }
}

impl<'a> vstd::std_specs::convert::FromSpecImpl<RwRefData<'a>> for ClosableMutData<'a> {
    open spec fn obeys_from_spec() -> bool {
        true
    }

    open spec fn from_spec(rw: RwRefData<'a>) -> ClosableMutData<'a> {
        ClosableMutData::Rw(rw)
    }
}

/// The buffer a closable borrowed stream refers to.
pub open spec fn closable_ref_bytes(c: ClosableRefData) -> Seq<u8> {
    match c {
        ClosableRefData::R(r) => r.sm().bytes,
        ClosableRefData::W(w) => w.sm().bytes,
        ClosableRefData::Rw(rw) => rw.sm().bytes,
    }
}

/// The buffer a closable mutably borrowed stream refers to.
pub open spec fn closable_mut_bytes(c: ClosableMutData) -> Seq<u8> {
    match c {
        ClosableMutData::W(w) => w.sm().bytes,
        ClosableMutData::Rw(rw) => rw.sm().bytes,
    }
}

/// Creates a reader over a borrowed byte buffer, positioned at its start.
pub fn read<'a>(data: &'a Vec<u8>) -> (r: RRefData<'a>)
    ensures
        r.sm() == borrowed_model(data@, 0),
{
    RRefData { data, pos: 0 }
}

/// Creates a writer over a mutably borrowed byte buffer, positioned at its
/// start.
pub fn write<'a>(data: &'a mut Vec<u8>) -> (r: WRefData<'a>)
    ensures
        r.sm() == borrowed_model((*old(data))@, 0),
{
    WRefData { data, pos: 0 }
}

/// Creates a reader and writer over a mutably borrowed byte buffer,
/// positioned at its start.
pub fn rw<'a>(data: &'a mut Vec<u8>) -> (r: RwRefData<'a>)
    ensures
        r.sm() == borrowed_model((*old(data))@, 0),
{
    RwRefData { data, pos: 0 }
}

/// Closes a borrowed stream and returns the reference to the buffer it
/// was reading or writing.
pub fn close_ref_data<'a>(closable: ClosableRefData<'a>) -> (r: &'a Vec<u8>)
    ensures
        r@ == closable_ref_bytes(closable),
{
    match closable {
        ClosableRefData::R(c) => c.data,
        ClosableRefData::W(c) => c.data,
        ClosableRefData::Rw(c) => c.data,
    }
}

/// Closes a borrowed stream and returns the reference to the buffer.
pub fn close<'a, T: Into<ClosableRefData<'a>>>(closable: T) -> (r: &'a Vec<u8>)
    ensures
        <T as vstd::std_specs::convert::IntoSpec<ClosableRefData<'a>>>::obeys_into_spec() ==> r@
            == closable_ref_bytes(
            <T as vstd::std_specs::convert::IntoSpec<ClosableRefData<'a>>>::into_spec(closable),
        ),
{
    close_ref_data(closable.into())
}

/// Closes a writing borrowed stream and returns the mutable reference to
/// the buffer it was writing.
pub fn close_mut_data<'a>(closable: ClosableMutData<'a>) -> (r: &'a mut Vec<u8>)
    ensures
        (*r)@ == closable_mut_bytes(closable),
{
    match closable {
        ClosableMutData::W(c) => c.data,
        ClosableMutData::Rw(c) => c.data,
    }
}

/// Closes a writing borrowed stream and returns the mutable reference to
/// the buffer.
pub fn close_mut<'a, T: Into<ClosableMutData<'a>>>(closable: T) -> (r: &'a mut Vec<u8>)
    ensures
        <T as vstd::std_specs::convert::IntoSpec<ClosableMutData<'a>>>::obeys_into_spec() ==> (*r)@
            == closable_mut_bytes(
            <T as vstd::std_specs::convert::IntoSpec<ClosableMutData<'a>>>::into_spec(closable),
        ),
{
    close_mut_data(closable.into())
}

} // verus!
