use crate::error::DhError;
use crate::read::{read_post, ReadSeek, ReadVal, Readable};
use crate::rw::Rw;
use crate::seek::{seek_post, SeekFrom, Seekable, StreamModel};
use crate::types::DataType;
use crate::write::{alloc_post, resized, write_post, Writable, WriteSeek, WriteVal};
use vstd::prelude::*;

verus! {

/// The model every owned in-memory stream presents: the buffer's bytes at
/// the current position, no window, growing on writes past the end.
pub open spec fn owned_model(bytes: Seq<u8>, pos: int) -> StreamModel {
    StreamModel { bytes, pos, start: 0, end: 0, bounded: false, growable: true }
}

/// A reader over an owned byte buffer.
pub struct RData {
    data: Vec<u8>,
    pos: u64,
}

impl crate::limited::RootStream for RData {
    proof fn rooted(&self) {
    }
}

impl Seekable for RData {
    closed spec fn sm(&self) -> StreamModel {
        owned_model(self.data@, self.pos as int)
    }

    fn seek(&mut self, from: SeekFrom) -> (r: Result<u64, DhError>) {
        let target: i128 = match from {
            SeekFrom::Start(x) => x as i128,
            SeekFrom::End(x) => self.data.len() as i128 + x as i128,
            SeekFrom::Current(x) => self.pos as i128 + x as i128,
        };
        if target < 0 || target > u64::MAX as i128 {
            Err(DhError::InvalidInput)
        } else {
            self.pos = target as u64;
            Ok(self.pos)
        }
    }
}

/// Copies `length` bytes of `data` starting at `from`.
pub(crate) fn copy_range(data: &Vec<u8>, from: usize, length: usize) -> (r: Vec<u8>)
    requires
        from + length <= data@.len(),
    ensures
        r@ == data@.subrange(from as int, from + length),
{
    let len = data.len();
    let mut r: Vec<u8> = Vec::new();
    let mut i: usize = 0;
    while i < length
        invariant
            i <= length,
            from + length <= len == data@.len(),
            r@ =~= data@.subrange(from as int, from + i),
        decreases length - i,
    {
        r.push(data[from + i]);
        i = i + 1;
        proof {
            assert(r@ =~= data@.subrange(from as int, from + i));
        }
    }
    r
}

/// Reads from an unbounded buffer held as a `Vec`, shared by the owned and
/// the borrowed readers.
pub(crate) fn vec_read_bytes(data: &Vec<u8>, pos: &mut u64, length: u64) -> (r: Result<
    Vec<u8>,
    DhError,
>)
    ensures
        read_post(
            owned_model(data@, *old(pos) as int),
            length as nat,
            owned_model(data@, *final(pos) as int),
            r,
        ),
{
    let len = data.len() as u64;
    if *pos > len || length > len - *pos {
        return Err(DhError::UnexpectedEof);
    }
    let r = copy_range(data, *pos as usize, length as usize);
    *pos = *pos + length;
    Ok(r)
}

impl ReadSeek for RData {
    fn read_bytes(&mut self, length: u64) -> (r: Result<Vec<u8>, DhError>) {
        vec_read_bytes(&self.data, &mut self.pos, length)
    }
}

impl ReadVal for RData {

}

impl<'a> Readable<'a> for RData {
    closed spec fn closed_desc(self) -> crate::types::ClosedData {
        crate::types::ClosedData::Owned(self.data@)
    }

    fn lock(&mut self, block: bool) -> (r: Result<(), DhError>) {
        Ok(())
    }

    fn unlock(&mut self) -> (r: Result<(), DhError>) {
        Ok(())
    }

    fn close(self) -> (r: Result<Option<DataType<'a>>, DhError>) {
        Ok(Some(DataType::Vec(self.data)))
    }
}

/// Writes into an unbounded buffer held as a `Vec`, growing it when the
/// write runs past its end; shared by the owned writers.
pub(crate) fn vec_write_bytes(data: &mut Vec<u8>, pos: &mut u64, buf: &[u8]) -> (r: Result<
    (),
    DhError,
>)
    ensures
        write_post(
            owned_model(old(data)@, *old(pos) as int),
            buf@,
            owned_model(final(data)@, *final(pos) as int),
            r,
        ),
{
    let ghost m = owned_model(data@, *pos as int);
    let len = data.len();
    let n = buf.len();
    if *pos > len as u64 || n as u64 > u64::MAX - *pos || (*pos + n as u64) as u128 > usize::MAX
        as u128 {
        return Err(DhError::InvalidInput);
    }
    let p = *pos as usize;
    let mut out = copy_range(data, 0, p);
    let mut i: usize = 0;
    proof {
        assert(out@ + buf@.take(0) =~= out@);
    }
    while i < n
        invariant
            i <= n == buf@.len(),
            out@ =~= m.bytes.take(p as int) + buf@.take(i as int),
        decreases n - i,
    {
        out.push(buf[i]);
        i = i + 1;
        proof {
            assert(out@ =~= m.bytes.take(p as int) + buf@.take(i as int));
        }
    }
    if p + n < len {
        let mut k: usize = p + n;
        while k < len
            invariant
                n == buf@.len(),
                data@ == m.bytes,
                p + n <= k <= len == data@.len() == m.bytes.len(),
                out@ =~= m.bytes.take(p as int) + buf@ + m.bytes.subrange(p + n, k as int),
            decreases len - k,
        {
            out.push(data[k]);
            k = k + 1;
            proof {
                assert(out@ =~= m.bytes.take(p as int) + buf@ + m.bytes.subrange(p + n, k as int));
            }
        }
        proof {
            assert(m.bytes.subrange(p + n, len as int) =~= m.bytes.skip(p + n));
        }
    }
    *data = out;
    *pos = *pos + n as u64;
    proof {
        assert(data@ =~= m.spliced(buf@));
    }
    Ok(())
}

/// Resizes an unbounded buffer held as a `Vec` to exactly `len` bytes.
pub(crate) fn vec_alloc(data: &mut Vec<u8>, len: u64) -> (r: Result<(), DhError>)
    ensures
        len <= usize::MAX ==> r == Ok::<(), DhError>(()) && final(data)@ == resized(
            old(data)@,
            len as nat,
        ),
        len > usize::MAX ==> r == Err::<(), DhError>(DhError::InvalidInput) && final(data)@ == old(
            data,
        )@,
{
    if len as u128 > usize::MAX as u128 {
        return Err(DhError::InvalidInput);
    }
    let target = len as usize;
    if target <= data.len() {
        data.truncate(target);
        proof {
            assert(data@ =~= resized(old(data)@, len as nat));
        }
    } else {
        let ghost base = data@;
        while data.len() < target
            invariant
                base.len() <= data@.len() <= target,
                data@ =~= resized(base, data@.len() as nat),
            decreases target - data.len(),
        {
            data.push(0);
            proof {
                assert(data@ =~= resized(base, data@.len() as nat));
            }
        }
    }
    Ok(())
}

/// A writer over an owned byte buffer, growing it as needed.
pub struct WData {
    data: Vec<u8>,
    pos: u64,
}

impl crate::limited::RootStream for WData {
    proof fn rooted(&self) {
    }
}

impl Seekable for WData {
    closed spec fn sm(&self) -> StreamModel {
        owned_model(self.data@, self.pos as int)
    }

    fn seek(&mut self, from: SeekFrom) -> (r: Result<u64, DhError>) {
        let target: i128 = match from {
            SeekFrom::Start(x) => x as i128,
            SeekFrom::End(x) => self.data.len() as i128 + x as i128,
            SeekFrom::Current(x) => self.pos as i128 + x as i128,
        };
        if target < 0 || target > u64::MAX as i128 {
            Err(DhError::InvalidInput)
        } else {
            self.pos = target as u64;
            Ok(self.pos)
        }
    }
}

impl WriteSeek for WData {
    fn write_bytes(&mut self, buf: &[u8]) -> (r: Result<(), DhError>) {
        vec_write_bytes(&mut self.data, &mut self.pos, buf)
    }
}

impl WriteVal for WData {

}

impl<'a> Writable<'a> for WData {
    closed spec fn closed_desc(self) -> crate::types::ClosedData {
        crate::types::ClosedData::Owned(self.data@)
    }

    fn allocate(&mut self, len: u64) -> (r: Result<(), DhError>) {
        vec_alloc(&mut self.data, len)
    }

    fn flush(&mut self) -> (r: Result<(), DhError>) {
        Ok(())
    }

    fn lock(&mut self, block: bool) -> (r: Result<(), DhError>) {
        Ok(())
    }

    fn unlock(&mut self) -> (r: Result<(), DhError>) {
        Ok(())
    }

    fn close(self) -> (r: Result<Option<DataType<'a>>, DhError>) {
        Ok(Some(DataType::Vec(self.data)))
    }
}

/// A reader and writer over an owned byte buffer, growing it as needed.
pub struct RwData {
    data: Vec<u8>,
    pos: u64,
}

impl crate::limited::RootStream for RwData {
    proof fn rooted(&self) {
    }
}

impl Seekable for RwData {
    closed spec fn sm(&self) -> StreamModel {
        owned_model(self.data@, self.pos as int)
    }

    fn seek(&mut self, from: SeekFrom) -> (r: Result<u64, DhError>) {
        let target: i128 = match from {
            SeekFrom::Start(x) => x as i128,
            SeekFrom::End(x) => self.data.len() as i128 + x as i128,
            SeekFrom::Current(x) => self.pos as i128 + x as i128,
        };
        if target < 0 || target > u64::MAX as i128 {
            Err(DhError::InvalidInput)
        } else {
            self.pos = target as u64;
            Ok(self.pos)
        }
    }
}

impl ReadSeek for RwData {
    fn read_bytes(&mut self, length: u64) -> (r: Result<Vec<u8>, DhError>) {
        vec_read_bytes(&self.data, &mut self.pos, length)
    }
}

impl ReadVal for RwData {

}

impl WriteSeek for RwData {
    fn write_bytes(&mut self, buf: &[u8]) -> (r: Result<(), DhError>) {
        vec_write_bytes(&mut self.data, &mut self.pos, buf)
    }
}

impl WriteVal for RwData {

}

impl<'a> Readable<'a> for RwData {
    closed spec fn closed_desc(self) -> crate::types::ClosedData {
        crate::types::ClosedData::Owned(self.data@)
    }

    fn lock(&mut self, block: bool) -> (r: Result<(), DhError>) {
        Ok(())
    }

    fn unlock(&mut self) -> (r: Result<(), DhError>) {
        Ok(())
    }

    fn close(self) -> (r: Result<Option<DataType<'a>>, DhError>) {
        Ok(Some(DataType::Vec(self.data)))
    }
}

impl<'a> Writable<'a> for RwData {
    closed spec fn closed_desc(self) -> crate::types::ClosedData {
        crate::types::ClosedData::Owned(self.data@)
    }

    fn allocate(&mut self, len: u64) -> (r: Result<(), DhError>) {
        vec_alloc(&mut self.data, len)
    }

    fn flush(&mut self) -> (r: Result<(), DhError>) {
        Ok(())
    }

    fn lock(&mut self, block: bool) -> (r: Result<(), DhError>) {
        Ok(())
    }

    fn unlock(&mut self) -> (r: Result<(), DhError>) {
        Ok(())
    }

    fn close(self) -> (r: Result<Option<DataType<'a>>, DhError>) {
        Ok(Some(DataType::Vec(self.data)))
    }
}

impl<'a> Rw<'a> for RwData {
    closed spec fn rw_closed_desc(self) -> crate::types::ClosedData {
        crate::types::ClosedData::Owned(self.data@)
    }

    fn rw_close(self) -> (r: Result<Option<DataType<'a>>, DhError>) {
        Ok(Some(DataType::Vec(self.data)))
    }
}

/// The streams whose owned buffer [`close`] can recover.
pub enum ClosableData {
    R(RData),
    W(WData),
    Rw(RwData),
}

/// The buffer a closable stream would hand back.
pub open spec fn closable_bytes(c: ClosableData) -> Seq<u8> {
    match c {
        ClosableData::R(r) => r.sm().bytes,
        ClosableData::W(w) => w.sm().bytes,
        ClosableData::Rw(rw) => rw.sm().bytes,
    }
}

/// Creates a reader over an owned byte buffer, positioned at its start.
pub fn read(data: Vec<u8>) -> (r: RData)
    ensures
        r.sm() == owned_model(data@, 0),
{
    RData { data, pos: 0 }
}

/// Creates a writer over an owned byte buffer, positioned at its start.
pub fn write(data: Vec<u8>) -> (r: WData)
    ensures
        r.sm() == owned_model(data@, 0),
{
    WData { data, pos: 0 }
}

/// Creates a writer over an empty buffer.
pub fn write_empty() -> (r: WData)
    ensures
        r.sm() == owned_model(Seq::<u8>::empty(), 0),
{
    WData { data: Vec::new(), pos: 0 }
}

/// Creates a writer over a zero-filled buffer of `len` bytes.
pub fn write_new(len: u64) -> (r: WData)
    requires
        len <= usize::MAX,
    ensures
        r.sm() == owned_model(Seq::<u8>::new(len as nat, |i: int| 0u8), 0),
{
    let mut w = WData { data: Vec::new(), pos: 0 };
    let _ = vec_alloc(&mut w.data, len);
    proof {
        assert(resized(Seq::<u8>::empty(), len as nat) =~= Seq::<u8>::new(len as nat, |i: int| 0u8));
    }
    w
}

/// Creates a reader and writer over an owned byte buffer, positioned at its
/// start.
pub fn rw(data: Vec<u8>) -> (r: RwData)
    ensures
        r.sm() == owned_model(data@, 0),
{
    RwData { data, pos: 0 }
}

/// Creates a reader and writer over an empty buffer.
pub fn rw_empty() -> (r: RwData)
    ensures
        r.sm() == owned_model(Seq::<u8>::empty(), 0),
{
    RwData { data: Vec::new(), pos: 0 }
}

/// Creates a reader and writer over a zero-filled buffer of `len` bytes.
pub fn rw_new(len: u64) -> (r: RwData)
    requires
        len <= usize::MAX,
    ensures
        r.sm() == owned_model(Seq::<u8>::new(len as nat, |i: int| 0u8), 0),
{
    let mut w = RwData { data: Vec::new(), pos: 0 };
    let _ = vec_alloc(&mut w.data, len);
    proof {
        assert(resized(Seq::<u8>::empty(), len as nat) =~= Seq::<u8>::new(len as nat, |i: int| 0u8));
    }
    w
}

impl From<RData> for ClosableData {
    fn from(r: RData) -> (c: ClosableData) {
        ClosableData::R(r)
    }
}

impl vstd::std_specs::convert::FromSpecImpl<RData> for ClosableData {
    open spec fn obeys_from_spec() -> bool {
        true
    }

    open spec fn from_spec(r: RData) -> ClosableData {
        ClosableData::R(r)
    }
}

impl From<WData> for ClosableData {
    fn from(w: WData) -> (c: ClosableData) {
        ClosableData::W(w)
    }
}

impl vstd::std_specs::convert::FromSpecImpl<WData> for ClosableData {
    open spec fn obeys_from_spec() -> bool {
        true
    }

    open spec fn from_spec(w: WData) -> ClosableData {
        ClosableData::W(w)
    }
}

impl From<RwData> for ClosableData {
    fn from(rw: RwData) -> (c: ClosableData) {
        ClosableData::Rw(rw)
    }
}

impl vstd::std_specs::convert::FromSpecImpl<RwData> for ClosableData {
    open spec fn obeys_from_spec() -> bool {
        true
    }

    open spec fn from_spec(rw: RwData) -> ClosableData {
        ClosableData::Rw(rw)
    }
}

/// Closes a reader, writer, or reader and writer over an owned buffer and
/// returns the buffer it was holding.
pub fn close_data(closable: ClosableData) -> (r: Vec<u8>)
    ensures
        r@ == closable_bytes(closable),
{
    match closable {
        ClosableData::R(rd) => match rd.close() {
            Ok(Some(DataType::Vec(data))) => data,
            _ => Vec::new(),
        },
        ClosableData::W(w) => match w.close() {
            Ok(Some(DataType::Vec(data))) => data,
            _ => Vec::new(),
        },
        ClosableData::Rw(s) => match s.rw_close() {
            Ok(Some(DataType::Vec(data))) => data,
            _ => Vec::new(),
        },
    }
}

/// Closes a reader, writer, or reader and writer over an owned buffer and
/// returns the buffer.
pub fn close<T: Into<ClosableData>>(closable: T) -> (r: Vec<u8>)
    ensures
        <T as vstd::std_specs::convert::IntoSpec<ClosableData>>::obeys_into_spec() ==> r@
            == closable_bytes(
            <T as vstd::std_specs::convert::IntoSpec<ClosableData>>::into_spec(closable),
        ),
{
    close_data(closable.into())
}

} // verus!

