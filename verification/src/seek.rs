use crate::error::DhError;
use vstd::prelude::*;

verus! {

/// A target for [`Seekable::seek`]: an offset from the start of the
/// addressable range, from its end, or from the current position.
#[derive(Clone, Copy, Debug, PartialEq, Eq, Structural)]
pub enum SeekFrom {
    Start(u64),
    End(i64),
    Current(i64),
}

/// The mathematical state of a stream: the underlying bytes, the current
/// absolute position, and the window that confines a bounded view.
///
/// A plain stream has `bounded == false`; its window fields are unused and
/// every non-negative position is addressable.  A bounded view restricts all
/// operations to `[start, end]` and reports positions relative to `start`.
/// `growable` says whether writing past the end of `bytes` extends them.
pub struct StreamModel {
    pub bytes: Seq<u8>,
    pub pos: int,
    pub start: int,
    pub end: int,
    pub bounded: bool,
    pub growable: bool,
}

impl StreamModel {
    /// The offset against which positions are reported.
    pub open spec fn origin(self) -> int {
        if self.bounded {
            self.start
        } else {
            0
        }
    }

    /// The base of `SeekFrom::End`: the window end for a bounded view, the
    /// current length of the bytes otherwise.
    pub open spec fn limit_end(self) -> int {
        if self.bounded {
            self.end
        } else {
            self.bytes.len() as int
        }
    }

    /// The absolute position a seek request resolves to.
    pub open spec fn seek_target(self, from: SeekFrom) -> int {
        match from {
            SeekFrom::Start(x) => self.origin() + x,
            SeekFrom::End(x) => self.limit_end() + x,
            SeekFrom::Current(x) => self.pos + x,
        }
    }

    /// Whether an absolute position may become the current position.
    pub open spec fn seek_ok(self, t: int) -> bool {
        &&& if self.bounded {
            self.start <= t <= self.end
        } else {
            0 <= t
        }
        &&& t <= self.origin() + u64::MAX
    }

    /// The error a rejected seek reports.
    pub open spec fn seek_err(self) -> DhError {
        if self.bounded {
            DhError::UnexpectedEof
        } else {
            DhError::InvalidInput
        }
    }

    /// The same stream at another position.
    pub open spec fn with_pos(self, t: int) -> StreamModel {
        StreamModel { pos: t, ..self }
    }

    /// Whether the window and growth mode agree with `other`'s.
    pub open spec fn same_frame(self, other: StreamModel) -> bool {
        &&& self.start == other.start
        &&& self.end == other.end
        &&& self.bounded == other.bounded
        &&& self.growable == other.growable
    }

    /// Whether `n` bytes can be read at the current position.
    pub open spec fn read_ok(self, n: nat) -> bool {
        &&& 0 <= self.pos
        &&& self.origin() <= self.pos
        &&& self.pos + n <= self.bytes.len()
        &&& self.bounded ==> self.pos + n <= self.end
    }

    /// The `n` bytes at the current position.
    pub open spec fn read_result(self, n: nat) -> Seq<u8> {
        self.bytes.subrange(self.pos, self.pos + n)
    }

    /// The stream after a successful read of `n` bytes.
    pub open spec fn after_read(self, n: nat) -> StreamModel {
        self.with_pos(self.pos + n)
    }

    /// Whether `n` bytes can be written at the current position.
    pub open spec fn write_ok(self, n: nat) -> bool {
        &&& 0 <= self.pos
        &&& self.origin() <= self.pos
        &&& self.bounded ==> self.pos + n <= self.end
        &&& self.pos + n <= usize::MAX
        &&& if self.growable {
            self.pos <= self.bytes.len()
        } else {
            self.pos + n <= self.bytes.len()
        }
    }

    /// The error a rejected write reports: leaving the window of a bounded
    /// view is an end-of-range condition, an unaddressable position on a
    /// growable buffer is an invalid input.
    pub open spec fn write_err(self, n: nat) -> DhError {
        if self.bounded && !(self.start <= self.pos && self.pos + n <= self.end) {
            DhError::UnexpectedEof
        } else if self.growable {
            DhError::InvalidInput
        } else {
            DhError::UnexpectedEof
        }
    }

    /// The bytes after `data` is laid down at the current position,
    /// extending the sequence when the write runs past its end.
    pub open spec fn spliced(self, data: Seq<u8>) -> Seq<u8> {
        self.bytes.take(self.pos) + data + if self.pos + data.len() < self.bytes.len() {
            self.bytes.skip(self.pos + data.len())
        } else {
            Seq::<u8>::empty()
        }
    }

    /// The stream after a successful write of `data`.
    pub open spec fn after_write(self, data: Seq<u8>) -> StreamModel {
        StreamModel { bytes: self.spliced(data), pos: self.pos + data.len(), ..self }
    }
}

/// What [`Seekable::seek`] does: on an admissible target it moves there and
/// reports the position relative to the origin; otherwise it changes nothing
/// and reports the stream's rejection error.
pub open spec fn seek_post(
    m: StreamModel,
    from: SeekFrom,
    m2: StreamModel,
    r: Result<u64, DhError>,
) -> bool {
    let t = m.seek_target(from);
    if m.seek_ok(t) {
        &&& m2 == m.with_pos(t)
        &&& r == Ok::<u64, DhError>((t - m.origin()) as u64)
    } else {
        &&& m2 == m
        &&& r == Err::<u64, DhError>(m.seek_err())
    }
}

/// Position arithmetic over a stream, shared by every reader and writer.
///
/// Only [`Seekable::seek`] is primitive; the remaining methods are derived
/// from its contract alone.
pub trait Seekable: Sized {
    /// The mathematical state of this stream.
    spec fn sm(&self) -> StreamModel;

    /// Moves the current position and returns it relative to the origin.
    fn seek(&mut self, from: SeekFrom) -> (r: Result<u64, DhError>)
        ensures
            seek_post(old(self).sm(), from, final(self).sm(), r),
    ;

    /// Moves to the start of the addressable range.
    fn rewind(&mut self) -> (r: Result<u64, DhError>)
        ensures
            seek_post(old(self).sm(), SeekFrom::Start(0), final(self).sm(), r),
    {
        self.seek(SeekFrom::Start(0))
    }

    /// Moves to the end of the addressable range.
    fn end(&mut self) -> (r: Result<u64, DhError>)
        ensures
            seek_post(old(self).sm(), SeekFrom::End(0), final(self).sm(), r),
    {
        self.seek(SeekFrom::End(0))
    }

    /// Moves to `pos`, counted from the origin.
    fn to(&mut self, pos: u64) -> (r: Result<u64, DhError>)
        ensures
            seek_post(old(self).sm(), SeekFrom::Start(pos), final(self).sm(), r),
    {
        self.seek(SeekFrom::Start(pos))
    }

    /// Moves by `pos` bytes from the current position.
    fn jump(&mut self, pos: i64) -> (r: Result<u64, DhError>)
        ensures
            seek_post(old(self).sm(), SeekFrom::Current(pos), final(self).sm(), r),
    {
        self.seek(SeekFrom::Current(pos))
    }

    /// The length of the addressable range, measured by seeking to its end
    /// and back.
    fn size(&mut self) -> (r: Result<u64, DhError>)
        ensures
            final(self).sm() == old(self).sm(),
            r is Ok <==> old(self).sm().seek_ok(old(self).sm().pos) && old(self).sm().seek_ok(
                old(self).sm().limit_end(),
            ),
            r matches Ok(s) ==> s == old(self).sm().limit_end() - old(self).sm().origin(),
            r is Err ==> r == Err::<u64, DhError>(old(self).sm().seek_err()),
    {
        let before = match self.seek(SeekFrom::Current(0)) {
            Ok(p) => p,
            Err(e) => {
                return Err(e);
            },
        };
        let size = self.end();
        self.to(before)?;
        size
    }

    /// The current position, relative to the origin.
    fn pos(&mut self) -> (r: Result<u64, DhError>)
        ensures
            seek_post(old(self).sm(), SeekFrom::Current(0), final(self).sm(), r),
    {
        self.seek(SeekFrom::Current(0))
    }
}

} // verus!
