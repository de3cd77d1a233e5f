use crate::error::DhError;
use crate::read::{read_post, ReadSeek, ReadVal};
use crate::seek::{seek_post, SeekFrom, Seekable, StreamModel};
use crate::write::{write_post, WriteSeek, WriteVal};
use vstd::prelude::*;

verus! {

/// A root stream: its reported positions are absolute and no window
/// confines it.  The bounded views below are built over root streams only.
pub trait RootStream: Seekable {
    /// Establishes that this stream is a root.
    proof fn rooted(&self)
        ensures
            !self.sm().bounded,
            0 <= self.sm().pos <= u64::MAX,
    ;
}

/// The model of a view over `parent` confined to `[start, end]`.
pub open spec fn limited_model(parent: StreamModel, start: int, end: int) -> StreamModel {
    StreamModel {
        bytes: parent.bytes,
        pos: parent.pos,
        start: start,
        end: end,
        bounded: true,
        growable: parent.growable,
    }
}

/// Seeks within the window `[start, end]` of an unbounded parent stream,
/// reporting the position relative to `start`.
fn limited_seek<T: RootStream>(data: &mut T, start: u64, end: u64, from: SeekFrom) -> (r: Result<
    u64,
    DhError,
>)
    ensures
        seek_post(
            limited_model((*old(data)).sm(), start as int, end as int),
            from,
            limited_model((*final(data)).sm(), start as int, end as int),
            r,
        ),
{
    proof {
        data.rooted();
    }
    let target: i128 = match from {
        SeekFrom::Start(x) => start as i128 + x as i128,
        SeekFrom::End(x) => end as i128 + x as i128,
        SeekFrom::Current(x) => {
            let p = match data.seek(SeekFrom::Current(0)) {
                Ok(p) => p,
                Err(e) => {
                    proof {
                        assert(false);
                    }
                    return Err(e);
                },
            };
            p as i128 + x as i128
        },
    };
    if target < start as i128 || target > end as i128 {
        return Err(DhError::UnexpectedEof);
    }
    match data.seek(SeekFrom::Start(target as u64)) {
        Ok(abs) => Ok(abs - start),
        Err(e) => {
            proof {
                assert(false);
            }
            Err(e)
        },
    }
}

/// Reads within the window: the byte range must lie inside `[start, end]`,
/// and a violation leaves the parent untouched.
fn limited_read<T: ReadSeek + RootStream>(data: &mut T, start: u64, end: u64, length: u64) -> (r:
    Result<Vec<u8>, DhError>)
    ensures
        read_post(
            limited_model((*old(data)).sm(), start as int, end as int),
            length as nat,
            limited_model((*final(data)).sm(), start as int, end as int),
            r,
        ),
{
    proof {
        data.rooted();
    }
    let pos = match data.seek(SeekFrom::Current(0)) {
        Ok(p) => p,
        Err(e) => {
            proof {
                assert(false);
            }
            return Err(DhError::UnexpectedEof);
        },
    };
    if pos < start || pos > end || length > end - pos {
        return Err(DhError::UnexpectedEof);
    }
    data.read_bytes(length)
}

/// Writes within the window: the byte range must lie inside `[start, end]`,
/// and a violation leaves the parent untouched.
fn limited_write<T: WriteSeek + RootStream>(data: &mut T, start: u64, end: u64, buf: &[u8]) -> (r:
    Result<(), DhError>)
    ensures
        write_post(
            limited_model((*old(data)).sm(), start as int, end as int),
            buf@,
            limited_model((*final(data)).sm(), start as int, end as int),
            r,
        ),
{
    proof {
        data.rooted();
    }
    let pos = match data.seek(SeekFrom::Current(0)) {
        Ok(p) => p,
        Err(e) => {
            proof {
                assert(false);
            }
            return Err(DhError::UnexpectedEof);
        },
    };
    if pos < start || pos > end || buf.len() as u64 > end - pos {
        return Err(DhError::UnexpectedEof);
    }
    data.write_bytes(buf)
}

/// A reader confined to a window of a root stream.
pub struct RLimited<'a, T> {
    data: &'a mut T,
    start: u64,
    end: u64,
}

impl<'a, T: ReadSeek + RootStream> Seekable for RLimited<'a, T> {
    closed spec fn sm(&self) -> StreamModel {
        limited_model((*self.data).sm(), self.start as int, self.end as int)
    }

    fn seek(&mut self, from: SeekFrom) -> (r: Result<u64, DhError>) {
        limited_seek(self.data, self.start, self.end, from)
    }
}

impl<'a, T: ReadSeek + RootStream> ReadSeek for RLimited<'a, T> {
    fn read_bytes(&mut self, length: u64) -> (r: Result<Vec<u8>, DhError>) {
        limited_read(self.data, self.start, self.end, length)
    }
}

impl<'a, T: ReadSeek + RootStream> ReadVal for RLimited<'a, T> {

}

impl<'a, T: ReadSeek + RootStream> RLimited<'a, T> {
    /// Hands the parent stream back.
    pub fn unlimit(self) -> (r: &'a mut T)
        ensures
            (*r).sm().bytes == self.sm().bytes,
            (*r).sm().pos == self.sm().pos,
    {
        self.data
    }
}

/// A writer confined to a window of a root stream.
pub struct WLimited<'a, T> {
    data: &'a mut T,
    start: u64,
    end: u64,
}

impl<'a, T: WriteSeek + RootStream> Seekable for WLimited<'a, T> {
    closed spec fn sm(&self) -> StreamModel {
        limited_model((*self.data).sm(), self.start as int, self.end as int)
    }

    fn seek(&mut self, from: SeekFrom) -> (r: Result<u64, DhError>) {
        limited_seek(self.data, self.start, self.end, from)
    }
}

impl<'a, T: WriteSeek + RootStream> WriteSeek for WLimited<'a, T> {
    fn write_bytes(&mut self, buf: &[u8]) -> (r: Result<(), DhError>) {
        limited_write(self.data, self.start, self.end, buf)
    }
}

impl<'a, T: WriteSeek + RootStream> WriteVal for WLimited<'a, T> {

}

impl<'a, T: WriteSeek + RootStream> WLimited<'a, T> {
    /// Refuses to resize: growing a fixed sub-window is undefined.
    pub fn allocate(&mut self, len: u64) -> (r: Result<(), DhError>)
        ensures
            final(self).sm() == old(self).sm(),
            r == Err::<(), DhError>(DhError::InvalidInput),
    {
        Err(DhError::InvalidInput)
    }

    /// Hands the parent stream back.
    pub fn unlimit(self) -> (r: &'a mut T)
        ensures
            (*r).sm().bytes == self.sm().bytes,
            (*r).sm().pos == self.sm().pos,
    {
        self.data
    }
}

/// A reader and writer confined to a window of a root stream.
pub struct RwLimited<'a, T> {
    data: &'a mut T,
    start: u64,
    end: u64,
}

impl<'a, T: ReadSeek + WriteSeek + RootStream> Seekable for RwLimited<'a, T> {
    closed spec fn sm(&self) -> StreamModel {
        limited_model((*self.data).sm(), self.start as int, self.end as int)
    }

    fn seek(&mut self, from: SeekFrom) -> (r: Result<u64, DhError>) {
        limited_seek(self.data, self.start, self.end, from)
    }
}

impl<'a, T: ReadSeek + WriteSeek + RootStream> ReadSeek for RwLimited<'a, T> {
    fn read_bytes(&mut self, length: u64) -> (r: Result<Vec<u8>, DhError>) {
        limited_read(self.data, self.start, self.end, length)
    }
}

impl<'a, T: ReadSeek + WriteSeek + RootStream> ReadVal for RwLimited<'a, T> {

}

impl<'a, T: ReadSeek + WriteSeek + RootStream> WriteSeek for RwLimited<'a, T> {
    fn write_bytes(&mut self, buf: &[u8]) -> (r: Result<(), DhError>) {
        limited_write(self.data, self.start, self.end, buf)
    }
}

impl<'a, T: ReadSeek + WriteSeek + RootStream> WriteVal for RwLimited<'a, T> {

}

impl<'a, T: ReadSeek + WriteSeek + RootStream> RwLimited<'a, T> {
    /// Refuses to resize: growing a fixed sub-window is undefined.
    pub fn allocate(&mut self, len: u64) -> (r: Result<(), DhError>)
        ensures
            final(self).sm() == old(self).sm(),
            r == Err::<(), DhError>(DhError::InvalidInput),
    {
        Err(DhError::InvalidInput)
    }

    /// Hands the parent stream back.
    pub fn unlimit(self) -> (r: &'a mut T)
        ensures
            (*r).sm().bytes == self.sm().bytes,
            (*r).sm().pos == self.sm().pos,
    {
        self.data
    }
}

/// Builds a bounded reader over `[pos, pos + length]` and moves the parent
/// to the window's start.
pub fn limit_r<'a, T: ReadSeek + RootStream>(data: &'a mut T, pos: u64, length: u64) -> (r: Result<
    RLimited<'a, T>,
    DhError,
>)
    requires
        pos + length <= u64::MAX,
    ensures
        r matches Ok(v) && v.sm() == limited_model(
            (*old(data)).sm().with_pos(pos as int),
            pos as int,
            pos + length,
        ),
{
    proof {
        data.rooted();
    }
    let abs = match data.seek(SeekFrom::Start(pos)) {
        Ok(p) => p,
        Err(e) => {
            proof {
                assert(false);
            }
            return Err(e);
        },
    };
    Ok(RLimited { data, start: pos, end: pos + length })
}

/// Builds a bounded writer over `[pos, pos + length]` and moves the parent
/// to the window's start.
pub fn limit_w<'a, T: WriteSeek + RootStream>(data: &'a mut T, pos: u64, length: u64) -> (r: Result<
    WLimited<'a, T>,
    DhError,
>)
    requires
        pos + length <= u64::MAX,
    ensures
        r matches Ok(v) && v.sm() == limited_model(
            (*old(data)).sm().with_pos(pos as int),
            pos as int,
            pos + length,
        ),
{
    proof {
        data.rooted();
    }
    let abs = match data.seek(SeekFrom::Start(pos)) {
        Ok(p) => p,
        Err(e) => {
            proof {
                assert(false);
            }
            return Err(e);
        },
    };
    Ok(WLimited { data, start: pos, end: pos + length })
}

/// Builds a bounded reader and writer over `[pos, pos + length]` and moves
/// the parent to the window's start.
pub fn limit_rw<'a, T: ReadSeek + WriteSeek + RootStream>(data: &'a mut T, pos: u64, length: u64) -> (r:
    Result<RwLimited<'a, T>, DhError>)
    requires
        pos + length <= u64::MAX,
    ensures
        r matches Ok(v) && v.sm() == limited_model(
            (*old(data)).sm().with_pos(pos as int),
            pos as int,
            pos + length,
        ),
{
    proof {
        data.rooted();
    }
    let abs = match data.seek(SeekFrom::Start(pos)) {
        Ok(p) => p,
        Err(e) => {
            proof {
                assert(false);
            }
            return Err(e);
        },
    };
    Ok(RwLimited { data, start: pos, end: pos + length })
}

} // verus!
