use crate::error::DhError;
use crate::num::{be_val, le_to_u128, le_val, lemma_be_val_bound, lemma_le_val_bound, be_to_u128};
use crate::seek::{SeekFrom, Seekable, StreamModel};
use crate::types::DataType;
use vstd::prelude::*;

verus! {

/// What [`ReadVal::read_bytes`] does: when `n` bytes lie inside the
/// addressable range at the current position it returns them and advances;
/// otherwise it changes nothing and reports the end of the range.
pub open spec fn read_post(
    m: StreamModel,
    n: nat,
    m2: StreamModel,
    r: Result<Vec<u8>, DhError>,
) -> bool {
    if m.read_ok(n) {
        &&& m2 == m.after_read(n)
        &&& r matches Ok(v) && v@ == m.read_result(n)
    } else {
        &&& m2 == m
        &&& r == Err::<Vec<u8>, DhError>(DhError::UnexpectedEof)
    }
}

/// How a read of `n` bytes moves the stream, whether or not it succeeds.
pub open spec fn read_step(m: StreamModel, n: nat, m2: StreamModel) -> bool {
    m2 == if m.read_ok(n) {
        m.after_read(n)
    } else {
        m
    }
}

/// A seekable byte source: the one primitive every reader must supply.
pub trait ReadSeek: Seekable {
    /// Reads exactly `length` bytes at the current position.
    fn read_bytes(&mut self, length: u64) -> (r: Result<Vec<u8>, DhError>)
        ensures
            read_post(old(self).sm(), length as nat, final(self).sm(), r),
    ;
}

/// Typed reads over a stream.  Only [`ReadSeek::read_bytes`] is primitive;
/// every method here is derived from its contract together with
/// [`Seekable::seek`]'s.
pub trait ReadVal: ReadSeek {
    /// Reads a `size`-byte unsigned integer in little-endian byte order.
    fn read_uxle(&mut self, size: u8) -> (r: Result<u128, DhError>)
        requires
            size <= 16,
        ensures
            read_step(old(self).sm(), size as nat, final(self).sm()),
            old(self).sm().read_ok(size as nat) ==> (r matches Ok(v) && v == le_val(
                old(self).sm().read_result(size as nat),
            )),
            !old(self).sm().read_ok(size as nat) ==> r == Err::<u128, DhError>(
                DhError::UnexpectedEof,
            ),
    {
        let buf = self.read_bytes(size as u64)?;
        Ok(le_to_u128(&buf))
    }

    /// Reads a `size`-byte unsigned integer in big-endian byte order.
    fn read_uxbe(&mut self, size: u8) -> (r: Result<u128, DhError>)
        requires
            size <= 16,
        ensures
            read_step(old(self).sm(), size as nat, final(self).sm()),
            old(self).sm().read_ok(size as nat) ==> (r matches Ok(v) && v == be_val(
                old(self).sm().read_result(size as nat),
            )),
            !old(self).sm().read_ok(size as nat) ==> r == Err::<u128, DhError>(
                DhError::UnexpectedEof,
            ),
    {
        let buf = self.read_bytes(size as u64)?;
        Ok(be_to_u128(&buf))
    }

    /// Reads an unsigned 8-bit integer.
    fn read_u8(&mut self) -> (r: Result<u8, DhError>)
        ensures
            read_step(old(self).sm(), 1, final(self).sm()),
            old(self).sm().read_ok(1) ==> (r matches Ok(v) && v == le_val(
                old(self).sm().read_result(1),
            )),
            !old(self).sm().read_ok(1) ==> r == Err::<u8, DhError>(DhError::UnexpectedEof),
    {
        proof {
            if old(self).sm().read_ok(1) {
                read_cast_bound(old(self).sm(), 1);
            }
        }
        match self.read_uxle(1) {
            Ok(v) => Ok(v as u8),
            Err(e) => Err(e),
        }
    }

    /// Reads an unsigned 16-bit integer in little-endian byte order.
    fn read_u16le(&mut self) -> (r: Result<u16, DhError>)
        ensures
            read_step(old(self).sm(), 2, final(self).sm()),
            old(self).sm().read_ok(2) ==> (r matches Ok(v) && v == le_val(
                old(self).sm().read_result(2),
            )),
            !old(self).sm().read_ok(2) ==> r == Err::<u16, DhError>(DhError::UnexpectedEof),
    {
        proof {
            if old(self).sm().read_ok(2) {
                read_cast_bound(old(self).sm(), 2);
            }
        }
        match self.read_uxle(2) {
            Ok(v) => Ok(v as u16),
            Err(e) => Err(e),
        }
    }

    /// Reads an unsigned 16-bit integer in big-endian byte order.
    fn read_u16be(&mut self) -> (r: Result<u16, DhError>)
        ensures
            read_step(old(self).sm(), 2, final(self).sm()),
            old(self).sm().read_ok(2) ==> (r matches Ok(v) && v == be_val(
                old(self).sm().read_result(2),
            )),
            !old(self).sm().read_ok(2) ==> r == Err::<u16, DhError>(DhError::UnexpectedEof),
    {
        proof {
            if old(self).sm().read_ok(2) {
                read_cast_bound(old(self).sm(), 2);
            }
        }
        match self.read_uxbe(2) {
            Ok(v) => Ok(v as u16),
            Err(e) => Err(e),
        }
    }

    /// Reads an unsigned 32-bit integer in little-endian byte order.
    fn read_u32le(&mut self) -> (r: Result<u32, DhError>)
        ensures
            read_step(old(self).sm(), 4, final(self).sm()),
            old(self).sm().read_ok(4) ==> (r matches Ok(v) && v == le_val(
                old(self).sm().read_result(4),
            )),
            !old(self).sm().read_ok(4) ==> r == Err::<u32, DhError>(DhError::UnexpectedEof),
    {
        proof {
            if old(self).sm().read_ok(4) {
                read_cast_bound(old(self).sm(), 4);
            }
        }
        match self.read_uxle(4) {
            Ok(v) => Ok(v as u32),
            Err(e) => Err(e),
        }
    }

    /// Reads an unsigned 32-bit integer in big-endian byte order.
    fn read_u32be(&mut self) -> (r: Result<u32, DhError>)
        ensures
            read_step(old(self).sm(), 4, final(self).sm()),
            old(self).sm().read_ok(4) ==> (r matches Ok(v) && v == be_val(
                old(self).sm().read_result(4),
            )),
            !old(self).sm().read_ok(4) ==> r == Err::<u32, DhError>(DhError::UnexpectedEof),
    {
        proof {
            if old(self).sm().read_ok(4) {
                read_cast_bound(old(self).sm(), 4);
            }
        }
        match self.read_uxbe(4) {
            Ok(v) => Ok(v as u32),
            Err(e) => Err(e),
        }
    }

    /// Reads an unsigned 64-bit integer in little-endian byte order.
    fn read_u64le(&mut self) -> (r: Result<u64, DhError>)
        ensures
            read_step(old(self).sm(), 8, final(self).sm()),
            old(self).sm().read_ok(8) ==> (r matches Ok(v) && v == le_val(
                old(self).sm().read_result(8),
            )),
            !old(self).sm().read_ok(8) ==> r == Err::<u64, DhError>(DhError::UnexpectedEof),
    {
        proof {
            if old(self).sm().read_ok(8) {
                read_cast_bound(old(self).sm(), 8);
            }
        }
        match self.read_uxle(8) {
            Ok(v) => Ok(v as u64),
            Err(e) => Err(e),
        }
    }

    /// Reads an unsigned 64-bit integer in big-endian byte order.
    fn read_u64be(&mut self) -> (r: Result<u64, DhError>)
        ensures
            read_step(old(self).sm(), 8, final(self).sm()),
            old(self).sm().read_ok(8) ==> (r matches Ok(v) && v == be_val(
                old(self).sm().read_result(8),
            )),
            !old(self).sm().read_ok(8) ==> r == Err::<u64, DhError>(DhError::UnexpectedEof),
    {
        proof {
            if old(self).sm().read_ok(8) {
                read_cast_bound(old(self).sm(), 8);
            }
        }
        match self.read_uxbe(8) {
            Ok(v) => Ok(v as u64),
            Err(e) => Err(e),
        }
    }

    /// Reads an unsigned 128-bit integer in little-endian byte order.
    fn read_u128le(&mut self) -> (r: Result<u128, DhError>)
        ensures
            read_step(old(self).sm(), 16, final(self).sm()),
            old(self).sm().read_ok(16) ==> (r matches Ok(v) && v == le_val(
                old(self).sm().read_result(16),
            )),
            !old(self).sm().read_ok(16) ==> r == Err::<u128, DhError>(DhError::UnexpectedEof),
    {
        self.read_uxle(16)
    }

    /// Reads an unsigned 128-bit integer in big-endian byte order.
    fn read_u128be(&mut self) -> (r: Result<u128, DhError>)
        ensures
            read_step(old(self).sm(), 16, final(self).sm()),
            old(self).sm().read_ok(16) ==> (r matches Ok(v) && v == be_val(
                old(self).sm().read_result(16),
            )),
            !old(self).sm().read_ok(16) ==> r == Err::<u128, DhError>(DhError::UnexpectedEof),
    {
        self.read_uxbe(16)
    }

    /// Reads an unsigned variable-length integer in little-endian byte order.
    fn read_vuxle(&mut self, size: u8) -> (r: Result<u128, DhError>)
        requires
            1 <= size <= 16,
        ensures
            crate::variable::varint_read_post(
                old(self).sm(),
                size as nat,
                false,
                false,
                final(self).sm(),
                r,
            ),
    {
        match crate::variable::read_varint(self, size, false, false) {
            Ok(p) => Ok(p.0),
            Err(e) => Err(e),
        }
    }

    /// Reads an unsigned variable-length integer in big-endian byte order.
    fn read_vuxbe(&mut self, size: u8) -> (r: Result<u128, DhError>)
        requires
            1 <= size <= 16,
        ensures
            crate::variable::varint_read_post(
                old(self).sm(),
                size as nat,
                true,
                false,
                final(self).sm(),
                r,
            ),
    {
        match crate::variable::read_varint(self, size, true, false) {
            Ok(p) => Ok(p.0),
            Err(e) => Err(e),
        }
    }

    /// Reads an unsigned variable-length integer in reversed little-endian byte order.
    fn read_vuxler(&mut self, size: u8) -> (r: Result<u128, DhError>)
        requires
            1 <= size <= 16,
        ensures
            crate::variable::varint_read_post(
                old(self).sm(),
                size as nat,
                false,
                true,
                final(self).sm(),
                r,
            ),
    {
        match crate::variable::read_varint(self, size, false, true) {
            Ok(p) => Ok(p.0),
            Err(e) => Err(e),
        }
    }

    /// Reads an unsigned variable-length integer in reversed big-endian byte order.
    fn read_vuxber(&mut self, size: u8) -> (r: Result<u128, DhError>)
        requires
            1 <= size <= 16,
        ensures
            crate::variable::varint_read_post(
                old(self).sm(),
                size as nat,
                true,
                true,
                final(self).sm(),
                r,
            ),
    {
        match crate::variable::read_varint(self, size, true, true) {
            Ok(p) => Ok(p.0),
            Err(e) => Err(e),
        }
    }

    /// Reads an unsigned 7-bit-group variable-length integer in stream byte order.
    fn read_vu7(&mut self) -> (r: Result<u128, DhError>)
        ensures
            crate::variable::varint_read_post(
                old(self).sm(),
                1,
                false,
                false,
                final(self).sm(),
                r,
            ),
    {
        match crate::variable::read_varint(self, 1, false, false) {
            Ok(p) => Ok(p.0),
            Err(e) => Err(e),
        }
    }

    /// Reads an unsigned 7-bit-group variable-length integer in reversed order.
    fn read_vu7r(&mut self) -> (r: Result<u128, DhError>)
        ensures
            crate::variable::varint_read_post(
                old(self).sm(),
                1,
                false,
                true,
                final(self).sm(),
                r,
            ),
    {
        match crate::variable::read_varint(self, 1, false, true) {
            Ok(p) => Ok(p.0),
            Err(e) => Err(e),
        }
    }

    /// Reads an unsigned 15-bit-group variable-length integer in little-endian byte order.
    fn read_vu15le(&mut self) -> (r: Result<u128, DhError>)
        ensures
            crate::variable::varint_read_post(
                old(self).sm(),
                2,
                false,
                false,
                final(self).sm(),
                r,
            ),
    {
        match crate::variable::read_varint(self, 2, false, false) {
            Ok(p) => Ok(p.0),
            Err(e) => Err(e),
        }
    }

    /// Reads an unsigned 15-bit-group variable-length integer in big-endian byte order.
    fn read_vu15be(&mut self) -> (r: Result<u128, DhError>)
        ensures
            crate::variable::varint_read_post(
                old(self).sm(),
                2,
                true,
                false,
                final(self).sm(),
                r,
            ),
    {
        match crate::variable::read_varint(self, 2, true, false) {
            Ok(p) => Ok(p.0),
            Err(e) => Err(e),
        }
    }

    /// Reads an unsigned 15-bit-group variable-length integer in reversed little-endian byte order.
    fn read_vu15ler(&mut self) -> (r: Result<u128, DhError>)
        ensures
            crate::variable::varint_read_post(
                old(self).sm(),
                2,
                false,
                true,
                final(self).sm(),
                r,
            ),
    {
        match crate::variable::read_varint(self, 2, false, true) {
            Ok(p) => Ok(p.0),
            Err(e) => Err(e),
        }
    }

    /// Reads an unsigned 15-bit-group variable-length integer in reversed big-endian byte order.
    fn read_vu15ber(&mut self) -> (r: Result<u128, DhError>)
        ensures
            crate::variable::varint_read_post(
                old(self).sm(),
                2,
                true,
                true,
                final(self).sm(),
                r,
            ),
    {
        match crate::variable::read_varint(self, 2, true, true) {
            Ok(p) => Ok(p.0),
            Err(e) => Err(e),
        }
    }

    /// Reads an unsigned 31-bit-group variable-length integer in little-endian byte order.
    fn read_vu31le(&mut self) -> (r: Result<u128, DhError>)
        ensures
            crate::variable::varint_read_post(
                old(self).sm(),
                4,
                false,
                false,
                final(self).sm(),
                r,
            ),
    {
        match crate::variable::read_varint(self, 4, false, false) {
            Ok(p) => Ok(p.0),
            Err(e) => Err(e),
        }
    }

    /// Reads an unsigned 31-bit-group variable-length integer in big-endian byte order.
    fn read_vu31be(&mut self) -> (r: Result<u128, DhError>)
        ensures
            crate::variable::varint_read_post(
                old(self).sm(),
                4,
                true,
                false,
                final(self).sm(),
                r,
            ),
    {
        match crate::variable::read_varint(self, 4, true, false) {
            Ok(p) => Ok(p.0),
            Err(e) => Err(e),
        }
    }

    /// Reads an unsigned 31-bit-group variable-length integer in reversed little-endian byte order.
    fn read_vu31ler(&mut self) -> (r: Result<u128, DhError>)
        ensures
            crate::variable::varint_read_post(
                old(self).sm(),
                4,
                false,
                true,
                final(self).sm(),
                r,
            ),
    {
        match crate::variable::read_varint(self, 4, false, true) {
            Ok(p) => Ok(p.0),
            Err(e) => Err(e),
        }
    }

    /// Reads an unsigned 31-bit-group variable-length integer in reversed big-endian byte order.
    fn read_vu31ber(&mut self) -> (r: Result<u128, DhError>)
        ensures
            crate::variable::varint_read_post(
                old(self).sm(),
                4,
                true,
                true,
                final(self).sm(),
                r,
            ),
    {
        match crate::variable::read_varint(self, 4, true, true) {
            Ok(p) => Ok(p.0),
            Err(e) => Err(e),
        }
    }

    /// Reads an unsigned 63-bit-group variable-length integer in little-endian byte order.
    fn read_vu63le(&mut self) -> (r: Result<u128, DhError>)
        ensures
            crate::variable::varint_read_post(
                old(self).sm(),
                8,
                false,
                false,
                final(self).sm(),
                r,
            ),
    {
        match crate::variable::read_varint(self, 8, false, false) {
            Ok(p) => Ok(p.0),
            Err(e) => Err(e),
        }
    }

    /// Reads an unsigned 63-bit-group variable-length integer in big-endian byte order.
    fn read_vu63be(&mut self) -> (r: Result<u128, DhError>)
        ensures
            crate::variable::varint_read_post(
                old(self).sm(),
                8,
                true,
                false,
                final(self).sm(),
                r,
            ),
    {
        match crate::variable::read_varint(self, 8, true, false) {
            Ok(p) => Ok(p.0),
            Err(e) => Err(e),
        }
    }

    /// Reads an unsigned 63-bit-group variable-length integer in reversed little-endian byte order.
    fn read_vu63ler(&mut self) -> (r: Result<u128, DhError>)
        ensures
            crate::variable::varint_read_post(
                old(self).sm(),
                8,
                false,
                true,
                final(self).sm(),
                r,
            ),
    {
        match crate::variable::read_varint(self, 8, false, true) {
            Ok(p) => Ok(p.0),
            Err(e) => Err(e),
        }
    }

    /// Reads an unsigned 63-bit-group variable-length integer in reversed big-endian byte order.
    fn read_vu63ber(&mut self) -> (r: Result<u128, DhError>)
        ensures
            crate::variable::varint_read_post(
                old(self).sm(),
                8,
                true,
                true,
                final(self).sm(),
                r,
            ),
    {
        match crate::variable::read_varint(self, 8, true, true) {
            Ok(p) => Ok(p.0),
            Err(e) => Err(e),
        }
    }

    /// Reads an unsigned 127-bit-group variable-length integer in little-endian byte order.
    fn read_vu127le(&mut self) -> (r: Result<u128, DhError>)
        ensures
            crate::variable::varint_read_post(
                old(self).sm(),
                16,
                false,
                false,
                final(self).sm(),
                r,
            ),
    {
        match crate::variable::read_varint(self, 16, false, false) {
            Ok(p) => Ok(p.0),
            Err(e) => Err(e),
        }
    }

    /// Reads an unsigned 127-bit-group variable-length integer in big-endian byte order.
    fn read_vu127be(&mut self) -> (r: Result<u128, DhError>)
        ensures
            crate::variable::varint_read_post(
                old(self).sm(),
                16,
                true,
                false,
                final(self).sm(),
                r,
            ),
    {
        match crate::variable::read_varint(self, 16, true, false) {
            Ok(p) => Ok(p.0),
            Err(e) => Err(e),
        }
    }

    /// Reads an unsigned 127-bit-group variable-length integer in reversed little-endian byte order.
    fn read_vu127ler(&mut self) -> (r: Result<u128, DhError>)
        ensures
            crate::variable::varint_read_post(
                old(self).sm(),
                16,
                false,
                true,
                final(self).sm(),
                r,
            ),
    {
        match crate::variable::read_varint(self, 16, false, true) {
            Ok(p) => Ok(p.0),
            Err(e) => Err(e),
        }
    }

    /// Reads an unsigned 127-bit-group variable-length integer in reversed big-endian byte order.
    fn read_vu127ber(&mut self) -> (r: Result<u128, DhError>)
        ensures
            crate::variable::varint_read_post(
                old(self).sm(),
                16,
                true,
                true,
                final(self).sm(),
                r,
            ),
    {
        match crate::variable::read_varint(self, 16, true, true) {
            Ok(p) => Ok(p.0),
            Err(e) => Err(e),
        }
    }

    /// Reads a signed variable-length integer in little-endian byte order.
    fn read_vixle(&mut self, size: u8) -> (r: Result<i128, DhError>)
        requires
            1 <= size <= 16,
        ensures
            crate::variable::varint_sign_post(
                old(self).sm(),
                size as nat,
                false,
                false,
                final(self).sm(),
                r,
            ),
    {
        crate::variable::read_varint_signed(self, size, false, false)
    }

    /// Reads a signed variable-length integer in big-endian byte order.
    fn read_vixbe(&mut self, size: u8) -> (r: Result<i128, DhError>)
        requires
            1 <= size <= 16,
        ensures
            crate::variable::varint_sign_post(
                old(self).sm(),
                size as nat,
                true,
                false,
                final(self).sm(),
                r,
            ),
    {
        crate::variable::read_varint_signed(self, size, true, false)
    }

    /// Reads a signed variable-length integer in reversed little-endian byte order.
    fn read_vixler(&mut self, size: u8) -> (r: Result<i128, DhError>)
        requires
            1 <= size <= 16,
        ensures
            crate::variable::varint_sign_post(
                old(self).sm(),
                size as nat,
                false,
                true,
                final(self).sm(),
                r,
            ),
    {
        crate::variable::read_varint_signed(self, size, false, true)
    }

    /// Reads a signed variable-length integer in reversed big-endian byte order.
    fn read_vixber(&mut self, size: u8) -> (r: Result<i128, DhError>)
        requires
            1 <= size <= 16,
        ensures
            crate::variable::varint_sign_post(
                old(self).sm(),
                size as nat,
                true,
                true,
                final(self).sm(),
                r,
            ),
    {
        crate::variable::read_varint_signed(self, size, true, true)
    }

    /// Reads a signed 7-bit-group variable-length integer in stream byte order.
    fn read_vi7(&mut self) -> (r: Result<i128, DhError>)
        ensures
            crate::variable::varint_sign_post(
                old(self).sm(),
                1,
                false,
                false,
                final(self).sm(),
                r,
            ),
    {
        crate::variable::read_varint_signed(self, 1, false, false)
    }

    /// Reads a signed 7-bit-group variable-length integer in reversed order.
    fn read_vi7r(&mut self) -> (r: Result<i128, DhError>)
        ensures
            crate::variable::varint_sign_post(
                old(self).sm(),
                1,
                false,
                true,
                final(self).sm(),
                r,
            ),
    {
        crate::variable::read_varint_signed(self, 1, false, true)
    }

    /// Reads a signed 15-bit-group variable-length integer in little-endian byte order.
    fn read_vi15le(&mut self) -> (r: Result<i128, DhError>)
        ensures
            crate::variable::varint_sign_post(
                old(self).sm(),
                2,
                false,
                false,
                final(self).sm(),
                r,
            ),
    {
        crate::variable::read_varint_signed(self, 2, false, false)
    }

    /// Reads a signed 15-bit-group variable-length integer in big-endian byte order.
    fn read_vi15be(&mut self) -> (r: Result<i128, DhError>)
        ensures
            crate::variable::varint_sign_post(
                old(self).sm(),
                2,
                true,
                false,
                final(self).sm(),
                r,
            ),
    {
        crate::variable::read_varint_signed(self, 2, true, false)
    }

    /// Reads a signed 15-bit-group variable-length integer in reversed little-endian byte order.
    fn read_vi15ler(&mut self) -> (r: Result<i128, DhError>)
        ensures
            crate::variable::varint_sign_post(
                old(self).sm(),
                2,
                false,
                true,
                final(self).sm(),
                r,
            ),
    {
        crate::variable::read_varint_signed(self, 2, false, true)
    }

    /// Reads a signed 15-bit-group variable-length integer in reversed big-endian byte order.
    fn read_vi15ber(&mut self) -> (r: Result<i128, DhError>)
        ensures
            crate::variable::varint_sign_post(
                old(self).sm(),
                2,
                true,
                true,
                final(self).sm(),
                r,
            ),
    {
        crate::variable::read_varint_signed(self, 2, true, true)
    }

    /// Reads a signed 31-bit-group variable-length integer in little-endian byte order.
    fn read_vi31le(&mut self) -> (r: Result<i128, DhError>)
        ensures
            crate::variable::varint_sign_post(
                old(self).sm(),
                4,
                false,
                false,
                final(self).sm(),
                r,
            ),
    {
        crate::variable::read_varint_signed(self, 4, false, false)
    }

    /// Reads a signed 31-bit-group variable-length integer in big-endian byte order.
    fn read_vi31be(&mut self) -> (r: Result<i128, DhError>)
        ensures
            crate::variable::varint_sign_post(
                old(self).sm(),
                4,
                true,
                false,
                final(self).sm(),
                r,
            ),
    {
        crate::variable::read_varint_signed(self, 4, true, false)
    }

    /// Reads a signed 31-bit-group variable-length integer in reversed little-endian byte order.
    fn read_vi31ler(&mut self) -> (r: Result<i128, DhError>)
        ensures
            crate::variable::varint_sign_post(
                old(self).sm(),
                4,
                false,
                true,
                final(self).sm(),
                r,
            ),
    {
        crate::variable::read_varint_signed(self, 4, false, true)
    }

    /// Reads a signed 31-bit-group variable-length integer in reversed big-endian byte order.
    fn read_vi31ber(&mut self) -> (r: Result<i128, DhError>)
        ensures
            crate::variable::varint_sign_post(
                old(self).sm(),
                4,
                true,
                true,
                final(self).sm(),
                r,
            ),
    {
        crate::variable::read_varint_signed(self, 4, true, true)
    }

    /// Reads a signed 63-bit-group variable-length integer in little-endian byte order.
    fn read_vi63le(&mut self) -> (r: Result<i128, DhError>)
        ensures
            crate::variable::varint_sign_post(
                old(self).sm(),
                8,
                false,
                false,
                final(self).sm(),
                r,
            ),
    {
        crate::variable::read_varint_signed(self, 8, false, false)
    }

    /// Reads a signed 63-bit-group variable-length integer in big-endian byte order.
    fn read_vi63be(&mut self) -> (r: Result<i128, DhError>)
        ensures
            crate::variable::varint_sign_post(
                old(self).sm(),
                8,
                true,
                false,
                final(self).sm(),
                r,
            ),
    {
        crate::variable::read_varint_signed(self, 8, true, false)
    }

    /// Reads a signed 63-bit-group variable-length integer in reversed little-endian byte order.
    fn read_vi63ler(&mut self) -> (r: Result<i128, DhError>)
        ensures
            crate::variable::varint_sign_post(
                old(self).sm(),
                8,
                false,
                true,
                final(self).sm(),
                r,
            ),
    {
        crate::variable::read_varint_signed(self, 8, false, true)
    }

    /// Reads a signed 63-bit-group variable-length integer in reversed big-endian byte order.
    fn read_vi63ber(&mut self) -> (r: Result<i128, DhError>)
        ensures
            crate::variable::varint_sign_post(
                old(self).sm(),
                8,
                true,
                true,
                final(self).sm(),
                r,
            ),
    {
        crate::variable::read_varint_signed(self, 8, true, true)
    }

    /// Reads a signed 127-bit-group variable-length integer in little-endian byte order.
    fn read_vi127le(&mut self) -> (r: Result<i128, DhError>)
        ensures
            crate::variable::varint_sign_post(
                old(self).sm(),
                16,
                false,
                false,
                final(self).sm(),
                r,
            ),
    {
        crate::variable::read_varint_signed(self, 16, false, false)
    }

    /// Reads a signed 127-bit-group variable-length integer in big-endian byte order.
    fn read_vi127be(&mut self) -> (r: Result<i128, DhError>)
        ensures
            crate::variable::varint_sign_post(
                old(self).sm(),
                16,
                true,
                false,
                final(self).sm(),
                r,
            ),
    {
        crate::variable::read_varint_signed(self, 16, true, false)
    }

    /// Reads a signed 127-bit-group variable-length integer in reversed little-endian byte order.
    fn read_vi127ler(&mut self) -> (r: Result<i128, DhError>)
        ensures
            crate::variable::varint_sign_post(
                old(self).sm(),
                16,
                false,
                true,
                final(self).sm(),
                r,
            ),
    {
        crate::variable::read_varint_signed(self, 16, false, true)
    }

    /// Reads a signed 127-bit-group variable-length integer in reversed big-endian byte order.
    fn read_vi127ber(&mut self) -> (r: Result<i128, DhError>)
        ensures
            crate::variable::varint_sign_post(
                old(self).sm(),
                16,
                true,
                true,
                final(self).sm(),
                r,
            ),
    {
        crate::variable::read_varint_signed(self, 16, true, true)
    }

    /// Reads a `size`-byte signed integer in little-endian byte order, as
    /// a two's-complement reinterpretation of the unsigned reading.
    fn read_ixle(&mut self, size: u8) -> (r: Result<i128, DhError>)
        requires
            1 <= size <= 16,
        ensures
            read_step(old(self).sm(), size as nat, final(self).sm()),
            old(self).sm().read_ok(size as nat) ==> (r matches Ok(v) && v
                == crate::num::sign_decode(
                le_val(old(self).sm().read_result(size as nat)),
                (8 * size) as nat,
            )),
            !old(self).sm().read_ok(size as nat) ==> r == Err::<i128, DhError>(
                DhError::UnexpectedEof,
            ),
    {
        proof {
            if old(self).sm().read_ok(size as nat) {
                crate::num::lemma_le_val_bound(old(self).sm().read_result(size as nat));
                crate::num::lemma_p2_mono((8 * size) as nat, 128);
                crate::num::lemma_p2_128();
            }
        }
        let u = match self.read_uxle(size) {
            Ok(u) => u,
            Err(e) => {
                return Err(e);
            },
        };
        Ok(crate::signed::sign_extend(u, 8 * size as u32))
    }

    /// Reads a `size`-byte signed integer in big-endian byte order, as
    /// a two's-complement reinterpretation of the unsigned reading.
    fn read_ixbe(&mut self, size: u8) -> (r: Result<i128, DhError>)
        requires
            1 <= size <= 16,
        ensures
            read_step(old(self).sm(), size as nat, final(self).sm()),
            old(self).sm().read_ok(size as nat) ==> (r matches Ok(v) && v
                == crate::num::sign_decode(
                be_val(old(self).sm().read_result(size as nat)),
                (8 * size) as nat,
            )),
            !old(self).sm().read_ok(size as nat) ==> r == Err::<i128, DhError>(
                DhError::UnexpectedEof,
            ),
    {
        proof {
            if old(self).sm().read_ok(size as nat) {
                crate::num::lemma_be_val_bound(old(self).sm().read_result(size as nat));
                crate::num::lemma_p2_mono((8 * size) as nat, 128);
                crate::num::lemma_p2_128();
            }
        }
        let u = match self.read_uxbe(size) {
            Ok(u) => u,
            Err(e) => {
                return Err(e);
            },
        };
        Ok(crate::signed::sign_extend(u, 8 * size as u32))
    }

    /// Reads a signed 8-bit integer.
    fn read_i8(&mut self) -> (r: Result<i8, DhError>)
        ensures
            read_step(old(self).sm(), 1, final(self).sm()),
            old(self).sm().read_ok(1) ==> (r matches Ok(v) && v == crate::num::sign_decode(
                le_val(old(self).sm().read_result(1)),
                8,
            )),
            !old(self).sm().read_ok(1) ==> r == Err::<i8, DhError>(DhError::UnexpectedEof),
    {
        proof {
            if old(self).sm().read_ok(1) {
                read_cast_bound(old(self).sm(), 1);
                crate::num::lemma_sign_decode_bounds(
                    le_val(old(self).sm().read_result(1)),
                    8,
                );
                crate::num::lemma_p2_128();
            }
        }
        match self.read_ixle(1) {
            Ok(v) => Ok(v as i8),
            Err(e) => Err(e),
        }
    }

    /// Reads a signed 16-bit integer in little-endian byte order.
    fn read_i16le(&mut self) -> (r: Result<i16, DhError>)
        ensures
            read_step(old(self).sm(), 2, final(self).sm()),
            old(self).sm().read_ok(2) ==> (r matches Ok(v) && v == crate::num::sign_decode(
                le_val(old(self).sm().read_result(2)),
                16,
            )),
            !old(self).sm().read_ok(2) ==> r == Err::<i16, DhError>(DhError::UnexpectedEof),
    {
        proof {
            if old(self).sm().read_ok(2) {
                read_cast_bound(old(self).sm(), 2);
                crate::num::lemma_sign_decode_bounds(
                    le_val(old(self).sm().read_result(2)),
                    16,
                );
                crate::num::lemma_p2_128();
            }
        }
        match self.read_ixle(2) {
            Ok(v) => Ok(v as i16),
            Err(e) => Err(e),
        }
    }

    /// Reads a signed 16-bit integer in big-endian byte order.
    fn read_i16be(&mut self) -> (r: Result<i16, DhError>)
        ensures
            read_step(old(self).sm(), 2, final(self).sm()),
            old(self).sm().read_ok(2) ==> (r matches Ok(v) && v == crate::num::sign_decode(
                be_val(old(self).sm().read_result(2)),
                16,
            )),
            !old(self).sm().read_ok(2) ==> r == Err::<i16, DhError>(DhError::UnexpectedEof),
    {
        proof {
            if old(self).sm().read_ok(2) {
                read_cast_bound(old(self).sm(), 2);
                crate::num::lemma_sign_decode_bounds(
                    be_val(old(self).sm().read_result(2)),
                    16,
                );
                crate::num::lemma_p2_128();
            }
        }
        match self.read_ixbe(2) {
            Ok(v) => Ok(v as i16),
            Err(e) => Err(e),
        }
    }

    /// Reads a signed 32-bit integer in little-endian byte order.
    fn read_i32le(&mut self) -> (r: Result<i32, DhError>)
        ensures
            read_step(old(self).sm(), 4, final(self).sm()),
            old(self).sm().read_ok(4) ==> (r matches Ok(v) && v == crate::num::sign_decode(
                le_val(old(self).sm().read_result(4)),
                32,
            )),
            !old(self).sm().read_ok(4) ==> r == Err::<i32, DhError>(DhError::UnexpectedEof),
    {
        proof {
            if old(self).sm().read_ok(4) {
                read_cast_bound(old(self).sm(), 4);
                crate::num::lemma_sign_decode_bounds(
                    le_val(old(self).sm().read_result(4)),
                    32,
                );
                crate::num::lemma_p2_128();
            }
        }
        match self.read_ixle(4) {
            Ok(v) => Ok(v as i32),
            Err(e) => Err(e),
        }
    }

    /// Reads a signed 32-bit integer in big-endian byte order.
    fn read_i32be(&mut self) -> (r: Result<i32, DhError>)
        ensures
            read_step(old(self).sm(), 4, final(self).sm()),
            old(self).sm().read_ok(4) ==> (r matches Ok(v) && v == crate::num::sign_decode(
                be_val(old(self).sm().read_result(4)),
                32,
            )),
            !old(self).sm().read_ok(4) ==> r == Err::<i32, DhError>(DhError::UnexpectedEof),
    {
        proof {
            if old(self).sm().read_ok(4) {
                read_cast_bound(old(self).sm(), 4);
                crate::num::lemma_sign_decode_bounds(
                    be_val(old(self).sm().read_result(4)),
                    32,
                );
                crate::num::lemma_p2_128();
            }
        }
        match self.read_ixbe(4) {
            Ok(v) => Ok(v as i32),
            Err(e) => Err(e),
        }
    }

    /// Reads a signed 64-bit integer in little-endian byte order.
    fn read_i64le(&mut self) -> (r: Result<i64, DhError>)
        ensures
            read_step(old(self).sm(), 8, final(self).sm()),
            old(self).sm().read_ok(8) ==> (r matches Ok(v) && v == crate::num::sign_decode(
                le_val(old(self).sm().read_result(8)),
                64,
            )),
            !old(self).sm().read_ok(8) ==> r == Err::<i64, DhError>(DhError::UnexpectedEof),
    {
        proof {
            if old(self).sm().read_ok(8) {
                read_cast_bound(old(self).sm(), 8);
                crate::num::lemma_sign_decode_bounds(
                    le_val(old(self).sm().read_result(8)),
                    64,
                );
                crate::num::lemma_p2_128();
            }
        }
        match self.read_ixle(8) {
            Ok(v) => Ok(v as i64),
            Err(e) => Err(e),
        }
    }

    /// Reads a signed 64-bit integer in big-endian byte order.
    fn read_i64be(&mut self) -> (r: Result<i64, DhError>)
        ensures
            read_step(old(self).sm(), 8, final(self).sm()),
            old(self).sm().read_ok(8) ==> (r matches Ok(v) && v == crate::num::sign_decode(
                be_val(old(self).sm().read_result(8)),
                64,
            )),
            !old(self).sm().read_ok(8) ==> r == Err::<i64, DhError>(DhError::UnexpectedEof),
    {
        proof {
            if old(self).sm().read_ok(8) {
                read_cast_bound(old(self).sm(), 8);
                crate::num::lemma_sign_decode_bounds(
                    be_val(old(self).sm().read_result(8)),
                    64,
                );
                crate::num::lemma_p2_128();
            }
        }
        match self.read_ixbe(8) {
            Ok(v) => Ok(v as i64),
            Err(e) => Err(e),
        }
    }

    /// Reads a signed 128-bit integer in little-endian byte order.
    fn read_i128le(&mut self) -> (r: Result<i128, DhError>)
        ensures
            read_step(old(self).sm(), 16, final(self).sm()),
            old(self).sm().read_ok(16) ==> (r matches Ok(v) && v == crate::num::sign_decode(
                le_val(old(self).sm().read_result(16)),
                128,
            )),
            !old(self).sm().read_ok(16) ==> r == Err::<i128, DhError>(DhError::UnexpectedEof),
    {
        proof {
            if old(self).sm().read_ok(16) {
                read_cast_bound(old(self).sm(), 16);
                crate::num::lemma_sign_decode_bounds(
                    le_val(old(self).sm().read_result(16)),
                    128,
                );
                crate::num::lemma_p2_128();
            }
        }
        match self.read_ixle(16) {
            Ok(v) => Ok(v),
            Err(e) => Err(e),
        }
    }

    /// Reads a signed 128-bit integer in big-endian byte order.
    fn read_i128be(&mut self) -> (r: Result<i128, DhError>)
        ensures
            read_step(old(self).sm(), 16, final(self).sm()),
            old(self).sm().read_ok(16) ==> (r matches Ok(v) && v == crate::num::sign_decode(
                be_val(old(self).sm().read_result(16)),
                128,
            )),
            !old(self).sm().read_ok(16) ==> r == Err::<i128, DhError>(DhError::UnexpectedEof),
    {
        proof {
            if old(self).sm().read_ok(16) {
                read_cast_bound(old(self).sm(), 16);
                crate::num::lemma_sign_decode_bounds(
                    be_val(old(self).sm().read_result(16)),
                    128,
                );
                crate::num::lemma_p2_128();
            }
        }
        match self.read_ixbe(16) {
            Ok(v) => Ok(v),
            Err(e) => Err(e),
        }
    }

    /// Reads a variable-length integer over 8-bit groups; the
    /// first group read supplies the highest-order digit.
    fn read_vu8(&mut self) -> (r: Result<u128, DhError>)
        ensures
            crate::variable::varint_msb_post(old(self).sm(), 1, false, final(self).sm(), r),
    {
        crate::variable::read_varint_msb(self, 1, false)
    }

    /// Reads a variable-length integer over 16-bit groups with groups in little-endian byte order; the
    /// first group read supplies the highest-order digit.
    fn read_vu16_le(&mut self) -> (r: Result<u128, DhError>)
        ensures
            crate::variable::varint_msb_post(old(self).sm(), 2, false, final(self).sm(), r),
    {
        crate::variable::read_varint_msb(self, 2, false)
    }

    /// Reads a variable-length integer over 16-bit groups with groups in big-endian byte order; the
    /// first group read supplies the highest-order digit.
    fn read_vu16_be(&mut self) -> (r: Result<u128, DhError>)
        ensures
            crate::variable::varint_msb_post(old(self).sm(), 2, true, final(self).sm(), r),
    {
        crate::variable::read_varint_msb(self, 2, true)
    }

    /// Reads a variable-length integer over 32-bit groups with groups in little-endian byte order; the
    /// first group read supplies the highest-order digit.
    fn read_vu32_le(&mut self) -> (r: Result<u128, DhError>)
        ensures
            crate::variable::varint_msb_post(old(self).sm(), 4, false, final(self).sm(), r),
    {
        crate::variable::read_varint_msb(self, 4, false)
    }

    /// Reads a variable-length integer over 32-bit groups with groups in big-endian byte order; the
    /// first group read supplies the highest-order digit.
    fn read_vu32_be(&mut self) -> (r: Result<u128, DhError>)
        ensures
            crate::variable::varint_msb_post(old(self).sm(), 4, true, final(self).sm(), r),
    {
        crate::variable::read_varint_msb(self, 4, true)
    }

    /// Reads a variable-length integer over 64-bit groups with groups in little-endian byte order; the
    /// first group read supplies the highest-order digit.
    fn read_vu64_le(&mut self) -> (r: Result<u128, DhError>)
        ensures
            crate::variable::varint_msb_post(old(self).sm(), 8, false, final(self).sm(), r),
    {
        crate::variable::read_varint_msb(self, 8, false)
    }

    /// Reads a variable-length integer over 64-bit groups with groups in big-endian byte order; the
    /// first group read supplies the highest-order digit.
    fn read_vu64_be(&mut self) -> (r: Result<u128, DhError>)
        ensures
            crate::variable::varint_msb_post(old(self).sm(), 8, true, final(self).sm(), r),
    {
        crate::variable::read_varint_msb(self, 8, true)
    }

    /// Reads a variable-length integer over 128-bit groups with groups in little-endian byte order; the
    /// first group read supplies the highest-order digit.
    fn read_vu128_le(&mut self) -> (r: Result<u128, DhError>)
        ensures
            crate::variable::varint_msb_post(old(self).sm(), 16, false, final(self).sm(), r),
    {
        crate::variable::read_varint_msb(self, 16, false)
    }

    /// Reads a variable-length integer over 128-bit groups with groups in big-endian byte order; the
    /// first group read supplies the highest-order digit.
    fn read_vu128_be(&mut self) -> (r: Result<u128, DhError>)
        ensures
            crate::variable::varint_msb_post(old(self).sm(), 16, true, final(self).sm(), r),
    {
        crate::variable::read_varint_msb(self, 16, true)
    }

    /// Reads `length` bytes and decodes them as UTF-8 text.
    fn read_utf8(&mut self, length: u64) -> (r: Result<String, DhError>)
        ensures
            read_step(old(self).sm(), length as nat, final(self).sm()),
            old(self).sm().read_ok(length as nat) ==> (if vstd::utf8::valid_utf8(
                old(self).sm().read_result(length as nat),
            ) {
                r matches Ok(s) && s@ == vstd::utf8::decode_utf8(
                    old(self).sm().read_result(length as nat),
                )
            } else {
                r == Err::<String, DhError>(DhError::InvalidData)
            }),
            !old(self).sm().read_ok(length as nat) ==> r == Err::<String, DhError>(
                DhError::UnexpectedEof,
            ),
    {
        let buf = self.read_bytes(length)?;
        match string_from_utf8(buf) {
            Some(s) => Ok(s),
            None => Err(DhError::InvalidData),
        }
    }

    /// Reads `len` bytes at position `pos`, returning to the prior position afterwards.
    fn read_bytes_at(&mut self, pos: u64, len: u64) -> (r: Result<Vec<u8>, DhError>)
        ensures
            ({
            let m = old(self).sm();
            let mt = m.with_pos(m.origin() + pos);
            let at_ok = m.seek_ok(m.pos) && m.seek_ok(m.origin() + pos);
            &&& !at_ok ==> final(self).sm() == m && r == Err::<Vec<u8>, DhError>(m.seek_err())
            &&& at_ok ==> final(self).sm() == m && (if mt.read_ok(len as nat) {
                r matches Ok(v) && v@ == mt.read_result(len as nat)
            } else {
                r == Err::<Vec<u8>, DhError>(DhError::UnexpectedEof)
            })
            }),
    {
        let before = match self.pos() {
            Ok(p) => p,
            Err(e) => {
                return Err(e);
            },
        };
        if let Err(e) = self.to(pos) {
            return Err(e);
        }
        let result = self.read_bytes(len);
        if let Err(e) = self.to(before) {
            return Err(e);
        }
        result
    }

    /// Reads `len` bytes as UTF-8 text at position `pos`, returning to the
    /// prior position afterwards.
    fn read_utf8_at(&mut self, pos: u64, len: u64) -> (r: Result<String, DhError>)
        ensures
            ({
            let m = old(self).sm();
            let mt = m.with_pos(m.origin() + pos);
            let at_ok = m.seek_ok(m.pos) && m.seek_ok(m.origin() + pos);
            &&& !at_ok ==> final(self).sm() == m && r == Err::<String, DhError>(m.seek_err())
            &&& at_ok ==> final(self).sm() == m && (if mt.read_ok(len as nat) {
                if vstd::utf8::valid_utf8(mt.read_result(len as nat)) {
                    r matches Ok(s) && s@ == vstd::utf8::decode_utf8(mt.read_result(len as nat))
                } else {
                    r == Err::<String, DhError>(DhError::InvalidData)
                }
            } else {
                r == Err::<String, DhError>(DhError::UnexpectedEof)
            })
            }),
    {
        let before = match self.pos() {
            Ok(p) => p,
            Err(e) => {
                return Err(e);
            },
        };
        if let Err(e) = self.to(pos) {
            return Err(e);
        }
        let result = self.read_utf8(len);
        if let Err(e) = self.to(before) {
            return Err(e);
        }
        result
    }

    /// Reads an unsigned 8-bit integer at position `pos`, returning to the prior position afterwards.
    fn read_u8_at(&mut self, pos: u64) -> (r: Result<u8, DhError>)
        ensures
            ({
            let m = old(self).sm();
            let mt = m.with_pos(m.origin() + pos);
            let at_ok = m.seek_ok(m.pos) && m.seek_ok(m.origin() + pos);
            &&& !at_ok ==> final(self).sm() == m && r == Err::<u8, DhError>(m.seek_err())
            &&& at_ok ==> final(self).sm() == m && (if mt.read_ok(1) {
                r matches Ok(v) && v == le_val(mt.read_result(1))
            } else {
                r == Err::<u8, DhError>(DhError::UnexpectedEof)
            })
            }),
    {
        let before = match self.pos() {
            Ok(p) => p,
            Err(e) => {
                return Err(e);
            },
        };
        if let Err(e) = self.to(pos) {
            return Err(e);
        }
        let result = self.read_u8();
        if let Err(e) = self.to(before) {
            return Err(e);
        }
        result
    }

    /// Reads an unsigned 16-bit integer at position `pos`, returning to the prior position afterwards.
    fn read_u16le_at(&mut self, pos: u64) -> (r: Result<u16, DhError>)
        ensures
            ({
            let m = old(self).sm();
            let mt = m.with_pos(m.origin() + pos);
            let at_ok = m.seek_ok(m.pos) && m.seek_ok(m.origin() + pos);
            &&& !at_ok ==> final(self).sm() == m && r == Err::<u16, DhError>(m.seek_err())
            &&& at_ok ==> final(self).sm() == m && (if mt.read_ok(2) {
                r matches Ok(v) && v == le_val(mt.read_result(2))
            } else {
                r == Err::<u16, DhError>(DhError::UnexpectedEof)
            })
            }),
    {
        let before = match self.pos() {
            Ok(p) => p,
            Err(e) => {
                return Err(e);
            },
        };
        if let Err(e) = self.to(pos) {
            return Err(e);
        }
        let result = self.read_u16le();
        if let Err(e) = self.to(before) {
            return Err(e);
        }
        result
    }

    /// Reads an unsigned 16-bit integer at position `pos`, returning to the prior position afterwards.
    fn read_u16be_at(&mut self, pos: u64) -> (r: Result<u16, DhError>)
        ensures
            ({
            let m = old(self).sm();
            let mt = m.with_pos(m.origin() + pos);
            let at_ok = m.seek_ok(m.pos) && m.seek_ok(m.origin() + pos);
            &&& !at_ok ==> final(self).sm() == m && r == Err::<u16, DhError>(m.seek_err())
            &&& at_ok ==> final(self).sm() == m && (if mt.read_ok(2) {
                r matches Ok(v) && v == be_val(mt.read_result(2))
            } else {
                r == Err::<u16, DhError>(DhError::UnexpectedEof)
            })
            }),
    {
        let before = match self.pos() {
            Ok(p) => p,
            Err(e) => {
                return Err(e);
            },
        };
        if let Err(e) = self.to(pos) {
            return Err(e);
        }
        let result = self.read_u16be();
        if let Err(e) = self.to(before) {
            return Err(e);
        }
        result
    }

    /// Reads an unsigned 32-bit integer at position `pos`, returning to the prior position afterwards.
    fn read_u32le_at(&mut self, pos: u64) -> (r: Result<u32, DhError>)
        ensures
            ({
            let m = old(self).sm();
            let mt = m.with_pos(m.origin() + pos);
            let at_ok = m.seek_ok(m.pos) && m.seek_ok(m.origin() + pos);
            &&& !at_ok ==> final(self).sm() == m && r == Err::<u32, DhError>(m.seek_err())
            &&& at_ok ==> final(self).sm() == m && (if mt.read_ok(4) {
                r matches Ok(v) && v == le_val(mt.read_result(4))
            } else {
                r == Err::<u32, DhError>(DhError::UnexpectedEof)
            })
            }),
    {
        let before = match self.pos() {
            Ok(p) => p,
            Err(e) => {
                return Err(e);
            },
        };
        if let Err(e) = self.to(pos) {
            return Err(e);
        }
        let result = self.read_u32le();
        if let Err(e) = self.to(before) {
            return Err(e);
        }
        result
    }

    /// Reads an unsigned 32-bit integer at position `pos`, returning to the prior position afterwards.
    fn read_u32be_at(&mut self, pos: u64) -> (r: Result<u32, DhError>)
        ensures
            ({
            let m = old(self).sm();
            let mt = m.with_pos(m.origin() + pos);
            let at_ok = m.seek_ok(m.pos) && m.seek_ok(m.origin() + pos);
            &&& !at_ok ==> final(self).sm() == m && r == Err::<u32, DhError>(m.seek_err())
            &&& at_ok ==> final(self).sm() == m && (if mt.read_ok(4) {
                r matches Ok(v) && v == be_val(mt.read_result(4))
            } else {
                r == Err::<u32, DhError>(DhError::UnexpectedEof)
            })
            }),
    {
        let before = match self.pos() {
            Ok(p) => p,
            Err(e) => {
                return Err(e);
            },
        };
        if let Err(e) = self.to(pos) {
            return Err(e);
        }
        let result = self.read_u32be();
        if let Err(e) = self.to(before) {
            return Err(e);
        }
        result
    }

    /// Reads an unsigned 64-bit integer at position `pos`, returning to the prior position afterwards.
    fn read_u64le_at(&mut self, pos: u64) -> (r: Result<u64, DhError>)
        ensures
            ({
            let m = old(self).sm();
            let mt = m.with_pos(m.origin() + pos);
            let at_ok = m.seek_ok(m.pos) && m.seek_ok(m.origin() + pos);
            &&& !at_ok ==> final(self).sm() == m && r == Err::<u64, DhError>(m.seek_err())
            &&& at_ok ==> final(self).sm() == m && (if mt.read_ok(8) {
                r matches Ok(v) && v == le_val(mt.read_result(8))
            } else {
                r == Err::<u64, DhError>(DhError::UnexpectedEof)
            })
            }),
    {
        let before = match self.pos() {
            Ok(p) => p,
            Err(e) => {
                return Err(e);
            },
        };
        if let Err(e) = self.to(pos) {
            return Err(e);
        }
        let result = self.read_u64le();
        if let Err(e) = self.to(before) {
            return Err(e);
        }
        result
    }

    /// Reads an unsigned 64-bit integer at position `pos`, returning to the prior position afterwards.
    fn read_u64be_at(&mut self, pos: u64) -> (r: Result<u64, DhError>)
        ensures
            ({
            let m = old(self).sm();
            let mt = m.with_pos(m.origin() + pos);
            let at_ok = m.seek_ok(m.pos) && m.seek_ok(m.origin() + pos);
            &&& !at_ok ==> final(self).sm() == m && r == Err::<u64, DhError>(m.seek_err())
            &&& at_ok ==> final(self).sm() == m && (if mt.read_ok(8) {
                r matches Ok(v) && v == be_val(mt.read_result(8))
            } else {
                r == Err::<u64, DhError>(DhError::UnexpectedEof)
            })
            }),
    {
        let before = match self.pos() {
            Ok(p) => p,
            Err(e) => {
                return Err(e);
            },
        };
        if let Err(e) = self.to(pos) {
            return Err(e);
        }
        let result = self.read_u64be();
        if let Err(e) = self.to(before) {
            return Err(e);
        }
        result
    }

    /// Reads an unsigned 128-bit integer at position `pos`, returning to the prior position afterwards.
    fn read_u128le_at(&mut self, pos: u64) -> (r: Result<u128, DhError>)
        ensures
            ({
            let m = old(self).sm();
            let mt = m.with_pos(m.origin() + pos);
            let at_ok = m.seek_ok(m.pos) && m.seek_ok(m.origin() + pos);
            &&& !at_ok ==> final(self).sm() == m && r == Err::<u128, DhError>(m.seek_err())
            &&& at_ok ==> final(self).sm() == m && (if mt.read_ok(16) {
                r matches Ok(v) && v == le_val(mt.read_result(16))
            } else {
                r == Err::<u128, DhError>(DhError::UnexpectedEof)
            })
            }),
    {
        let before = match self.pos() {
            Ok(p) => p,
            Err(e) => {
                return Err(e);
            },
        };
        if let Err(e) = self.to(pos) {
            return Err(e);
        }
        let result = self.read_u128le();
        if let Err(e) = self.to(before) {
            return Err(e);
        }
        result
    }

    /// Reads an unsigned 128-bit integer at position `pos`, returning to the prior position afterwards.
    fn read_u128be_at(&mut self, pos: u64) -> (r: Result<u128, DhError>)
        ensures
            ({
            let m = old(self).sm();
            let mt = m.with_pos(m.origin() + pos);
            let at_ok = m.seek_ok(m.pos) && m.seek_ok(m.origin() + pos);
            &&& !at_ok ==> final(self).sm() == m && r == Err::<u128, DhError>(m.seek_err())
            &&& at_ok ==> final(self).sm() == m && (if mt.read_ok(16) {
                r matches Ok(v) && v == be_val(mt.read_result(16))
            } else {
                r == Err::<u128, DhError>(DhError::UnexpectedEof)
            })
            }),
    {
        let before = match self.pos() {
            Ok(p) => p,
            Err(e) => {
                return Err(e);
            },
        };
        if let Err(e) = self.to(pos) {
            return Err(e);
        }
        let result = self.read_u128be();
        if let Err(e) = self.to(before) {
            return Err(e);
        }
        result
    }

    /// Reads a `size`-byte unsigned integer at position `pos`, returning to the prior position afterwards.
    fn read_uxle_at(&mut self, pos: u64, size: u8) -> (r: Result<u128, DhError>)
        requires
            size <= 16,
        ensures
            ({
            let m = old(self).sm();
            let mt = m.with_pos(m.origin() + pos);
            let at_ok = m.seek_ok(m.pos) && m.seek_ok(m.origin() + pos);
            &&& !at_ok ==> final(self).sm() == m && r == Err::<u128, DhError>(m.seek_err())
            &&& at_ok ==> final(self).sm() == m && (if mt.read_ok(size as nat) {
                r matches Ok(v) && v == le_val(mt.read_result(size as nat))
            } else {
                r == Err::<u128, DhError>(DhError::UnexpectedEof)
            })
            }),
    {
        let before = match self.pos() {
            Ok(p) => p,
            Err(e) => {
                return Err(e);
            },
        };
        if let Err(e) = self.to(pos) {
            return Err(e);
        }
        let result = self.read_uxle(size);
        if let Err(e) = self.to(before) {
            return Err(e);
        }
        result
    }

    /// Reads a `size`-byte unsigned integer at position `pos`, returning to the prior position afterwards.
    fn read_uxbe_at(&mut self, pos: u64, size: u8) -> (r: Result<u128, DhError>)
        requires
            size <= 16,
        ensures
            ({
            let m = old(self).sm();
            let mt = m.with_pos(m.origin() + pos);
            let at_ok = m.seek_ok(m.pos) && m.seek_ok(m.origin() + pos);
            &&& !at_ok ==> final(self).sm() == m && r == Err::<u128, DhError>(m.seek_err())
            &&& at_ok ==> final(self).sm() == m && (if mt.read_ok(size as nat) {
                r matches Ok(v) && v == be_val(mt.read_result(size as nat))
            } else {
                r == Err::<u128, DhError>(DhError::UnexpectedEof)
            })
            }),
    {
        let before = match self.pos() {
            Ok(p) => p,
            Err(e) => {
                return Err(e);
            },
        };
        if let Err(e) = self.to(pos) {
            return Err(e);
        }
        let result = self.read_uxbe(size);
        if let Err(e) = self.to(before) {
            return Err(e);
        }
        result
    }

    /// Reads an unsigned variable-length integer at position `pos`,
    /// returning to the prior position afterwards.
    fn read_vuxle_at(&mut self, pos: u64, size: u8) -> (r: Result<u128, DhError>)
        requires
            1 <= size <= 16,
        ensures
            ({
            let m = old(self).sm();
            let mt = m.with_pos(m.origin() + pos);
            let at_ok = m.seek_ok(m.pos) && m.seek_ok(m.origin() + pos);
            &&& !at_ok ==> final(self).sm() == m && r == Err::<u128, DhError>(m.seek_err())
            &&& at_ok ==> final(self).sm() == m && (match crate::variable::vux_groups(
                mt.bytes,
                mt.pos,
                crate::variable::read_limit(mt),
                size as nat,
                false,
            ) {
                Some(gs) => {
                    let v = crate::variable::vux_value(gs, size as nat, false);
                    if v < crate::num::p2(128) {
                        r matches Ok(x) && x == v
                    } else {
                        r == Err::<u128, DhError>(DhError::InvalidData)
                    }
                },
                None => r == Err::<u128, DhError>(DhError::UnexpectedEof),
            })
            }),
    {
        let before = match self.pos() {
            Ok(p) => p,
            Err(e) => {
                return Err(e);
            },
        };
        if let Err(e) = self.to(pos) {
            return Err(e);
        }
        let result = self.read_vuxle(size);
        if let Err(e) = self.to(before) {
            return Err(e);
        }
        result
    }

    /// Reads an unsigned variable-length integer at position `pos`,
    /// returning to the prior position afterwards.
    fn read_vuxbe_at(&mut self, pos: u64, size: u8) -> (r: Result<u128, DhError>)
        requires
            1 <= size <= 16,
        ensures
            ({
            let m = old(self).sm();
            let mt = m.with_pos(m.origin() + pos);
            let at_ok = m.seek_ok(m.pos) && m.seek_ok(m.origin() + pos);
            &&& !at_ok ==> final(self).sm() == m && r == Err::<u128, DhError>(m.seek_err())
            &&& at_ok ==> final(self).sm() == m && (match crate::variable::vux_groups(
                mt.bytes,
                mt.pos,
                crate::variable::read_limit(mt),
                size as nat,
                true,
            ) {
                Some(gs) => {
                    let v = crate::variable::vux_value(gs, size as nat, false);
                    if v < crate::num::p2(128) {
                        r matches Ok(x) && x == v
                    } else {
                        r == Err::<u128, DhError>(DhError::InvalidData)
                    }
                },
                None => r == Err::<u128, DhError>(DhError::UnexpectedEof),
            })
            }),
    {
        let before = match self.pos() {
            Ok(p) => p,
            Err(e) => {
                return Err(e);
            },
        };
        if let Err(e) = self.to(pos) {
            return Err(e);
        }
        let result = self.read_vuxbe(size);
        if let Err(e) = self.to(before) {
            return Err(e);
        }
        result
    }

    /// Reads an unsigned variable-length integer at position `pos`,
    /// returning to the prior position afterwards.
    fn read_vuxler_at(&mut self, pos: u64, size: u8) -> (r: Result<u128, DhError>)
        requires
            1 <= size <= 16,
        ensures
            ({
            let m = old(self).sm();
            let mt = m.with_pos(m.origin() + pos);
            let at_ok = m.seek_ok(m.pos) && m.seek_ok(m.origin() + pos);
            &&& !at_ok ==> final(self).sm() == m && r == Err::<u128, DhError>(m.seek_err())
            &&& at_ok ==> final(self).sm() == m && (match crate::variable::vux_groups(
                mt.bytes,
                mt.pos,
                crate::variable::read_limit(mt),
                size as nat,
                false,
            ) {
                Some(gs) => {
                    let v = crate::variable::vux_value(gs, size as nat, true);
                    if v < crate::num::p2(128) {
                        r matches Ok(x) && x == v
                    } else {
                        r == Err::<u128, DhError>(DhError::InvalidData)
                    }
                },
                None => r == Err::<u128, DhError>(DhError::UnexpectedEof),
            })
            }),
    {
        let before = match self.pos() {
            Ok(p) => p,
            Err(e) => {
                return Err(e);
            },
        };
        if let Err(e) = self.to(pos) {
            return Err(e);
        }
        let result = self.read_vuxler(size);
        if let Err(e) = self.to(before) {
            return Err(e);
        }
        result
    }

    /// Reads an unsigned variable-length integer at position `pos`,
    /// returning to the prior position afterwards.
    fn read_vuxber_at(&mut self, pos: u64, size: u8) -> (r: Result<u128, DhError>)
        requires
            1 <= size <= 16,
        ensures
            ({
            let m = old(self).sm();
            let mt = m.with_pos(m.origin() + pos);
            let at_ok = m.seek_ok(m.pos) && m.seek_ok(m.origin() + pos);
            &&& !at_ok ==> final(self).sm() == m && r == Err::<u128, DhError>(m.seek_err())
            &&& at_ok ==> final(self).sm() == m && (match crate::variable::vux_groups(
                mt.bytes,
                mt.pos,
                crate::variable::read_limit(mt),
                size as nat,
                true,
            ) {
                Some(gs) => {
                    let v = crate::variable::vux_value(gs, size as nat, true);
                    if v < crate::num::p2(128) {
                        r matches Ok(x) && x == v
                    } else {
                        r == Err::<u128, DhError>(DhError::InvalidData)
                    }
                },
                None => r == Err::<u128, DhError>(DhError::UnexpectedEof),
            })
            }),
    {
        let before = match self.pos() {
            Ok(p) => p,
            Err(e) => {
                return Err(e);
            },
        };
        if let Err(e) = self.to(pos) {
            return Err(e);
        }
        let result = self.read_vuxber(size);
        if let Err(e) = self.to(before) {
            return Err(e);
        }
        result
    }

    /// Reads an unsigned 16-bit integer in the machine's byte order:
    /// the little- or the big-endian reading, whichever the target uses.
    fn read_u16_ne(&mut self) -> (r: Result<u16, DhError>)
        ensures
            read_step(old(self).sm(), 2, final(self).sm()),
            old(self).sm().read_ok(2) ==> (r matches Ok(v) && (v == le_val(
                old(self).sm().read_result(2),
            ) || v == be_val(old(self).sm().read_result(2)))),
            !old(self).sm().read_ok(2) ==> r == Err::<u16, DhError>(DhError::UnexpectedEof),
    {
        proof {
            if old(self).sm().read_ok(2) {
                read_cast_bound(old(self).sm(), 2);
            }
        }
        let buf = match self.read_bytes(2) {
            Ok(b) => b,
            Err(e) => {
                return Err(e);
            },
        };
        Ok(u16_from_ne(buf.as_slice()))
    }

    /// Reads an unsigned 32-bit integer in the machine's byte order:
    /// the little- or the big-endian reading, whichever the target uses.
    fn read_u32_ne(&mut self) -> (r: Result<u32, DhError>)
        ensures
            read_step(old(self).sm(), 4, final(self).sm()),
            old(self).sm().read_ok(4) ==> (r matches Ok(v) && (v == le_val(
                old(self).sm().read_result(4),
            ) || v == be_val(old(self).sm().read_result(4)))),
            !old(self).sm().read_ok(4) ==> r == Err::<u32, DhError>(DhError::UnexpectedEof),
    {
        proof {
            if old(self).sm().read_ok(4) {
                read_cast_bound(old(self).sm(), 4);
            }
        }
        let buf = match self.read_bytes(4) {
            Ok(b) => b,
            Err(e) => {
                return Err(e);
            },
        };
        Ok(u32_from_ne(buf.as_slice()))
    }

    /// Reads an unsigned 64-bit integer in the machine's byte order:
    /// the little- or the big-endian reading, whichever the target uses.
    fn read_u64_ne(&mut self) -> (r: Result<u64, DhError>)
        ensures
            read_step(old(self).sm(), 8, final(self).sm()),
            old(self).sm().read_ok(8) ==> (r matches Ok(v) && (v == le_val(
                old(self).sm().read_result(8),
            ) || v == be_val(old(self).sm().read_result(8)))),
            !old(self).sm().read_ok(8) ==> r == Err::<u64, DhError>(DhError::UnexpectedEof),
    {
        proof {
            if old(self).sm().read_ok(8) {
                read_cast_bound(old(self).sm(), 8);
            }
        }
        let buf = match self.read_bytes(8) {
            Ok(b) => b,
            Err(e) => {
                return Err(e);
            },
        };
        Ok(u64_from_ne(buf.as_slice()))
    }

    /// Reads an unsigned 128-bit integer in the machine's byte order:
    /// the little- or the big-endian reading, whichever the target uses.
    fn read_u128_ne(&mut self) -> (r: Result<u128, DhError>)
        ensures
            read_step(old(self).sm(), 16, final(self).sm()),
            old(self).sm().read_ok(16) ==> (r matches Ok(v) && (v == le_val(
                old(self).sm().read_result(16),
            ) || v == be_val(old(self).sm().read_result(16)))),
            !old(self).sm().read_ok(16) ==> r == Err::<u128, DhError>(DhError::UnexpectedEof),
    {
        proof {
            if old(self).sm().read_ok(16) {
                read_cast_bound(old(self).sm(), 16);
            }
        }
        let buf = match self.read_bytes(16) {
            Ok(b) => b,
            Err(e) => {
                return Err(e);
            },
        };
        Ok(u128_from_ne(buf.as_slice()))
    }

    /// Reads an unsigned 16-bit integer in the chosen byte order.
    fn read_u16(&mut self, endianess: crate::types::Endianess) -> (r: Result<u16, DhError>)
        ensures
            read_step(old(self).sm(), 2, final(self).sm()),
            old(self).sm().read_ok(2) ==> (r matches Ok(v) && (match endianess {
                crate::types::Endianess::Little => v == le_val(old(self).sm().read_result(2)),
                crate::types::Endianess::Big => v == be_val(old(self).sm().read_result(2)),
                crate::types::Endianess::Native => v == le_val(old(self).sm().read_result(2))
                    || v == be_val(old(self).sm().read_result(2)),
            })),
            !old(self).sm().read_ok(2) ==> r == Err::<u16, DhError>(DhError::UnexpectedEof),
    {
        match endianess {
            crate::types::Endianess::Little => self.read_u16le(),
            crate::types::Endianess::Big => self.read_u16be(),
            crate::types::Endianess::Native => self.read_u16_ne(),
        }
    }

    /// Reads an unsigned 32-bit integer in the chosen byte order.
    fn read_u32(&mut self, endianess: crate::types::Endianess) -> (r: Result<u32, DhError>)
        ensures
            read_step(old(self).sm(), 4, final(self).sm()),
            old(self).sm().read_ok(4) ==> (r matches Ok(v) && (match endianess {
                crate::types::Endianess::Little => v == le_val(old(self).sm().read_result(4)),
                crate::types::Endianess::Big => v == be_val(old(self).sm().read_result(4)),
                crate::types::Endianess::Native => v == le_val(old(self).sm().read_result(4))
                    || v == be_val(old(self).sm().read_result(4)),
            })),
            !old(self).sm().read_ok(4) ==> r == Err::<u32, DhError>(DhError::UnexpectedEof),
    {
        match endianess {
            crate::types::Endianess::Little => self.read_u32le(),
            crate::types::Endianess::Big => self.read_u32be(),
            crate::types::Endianess::Native => self.read_u32_ne(),
        }
    }

    /// Reads an unsigned 64-bit integer in the chosen byte order.
    fn read_u64(&mut self, endianess: crate::types::Endianess) -> (r: Result<u64, DhError>)
        ensures
            read_step(old(self).sm(), 8, final(self).sm()),
            old(self).sm().read_ok(8) ==> (r matches Ok(v) && (match endianess {
                crate::types::Endianess::Little => v == le_val(old(self).sm().read_result(8)),
                crate::types::Endianess::Big => v == be_val(old(self).sm().read_result(8)),
                crate::types::Endianess::Native => v == le_val(old(self).sm().read_result(8))
                    || v == be_val(old(self).sm().read_result(8)),
            })),
            !old(self).sm().read_ok(8) ==> r == Err::<u64, DhError>(DhError::UnexpectedEof),
    {
        match endianess {
            crate::types::Endianess::Little => self.read_u64le(),
            crate::types::Endianess::Big => self.read_u64be(),
            crate::types::Endianess::Native => self.read_u64_ne(),
        }
    }

    /// Reads an unsigned 128-bit integer in the chosen byte order.
    fn read_u128(&mut self, endianess: crate::types::Endianess) -> (r: Result<u128, DhError>)
        ensures
            read_step(old(self).sm(), 16, final(self).sm()),
            old(self).sm().read_ok(16) ==> (r matches Ok(v) && (match endianess {
                crate::types::Endianess::Little => v == le_val(old(self).sm().read_result(16)),
                crate::types::Endianess::Big => v == be_val(old(self).sm().read_result(16)),
                crate::types::Endianess::Native => v == le_val(old(self).sm().read_result(16))
                    || v == be_val(old(self).sm().read_result(16)),
            })),
            !old(self).sm().read_ok(16) ==> r == Err::<u128, DhError>(DhError::UnexpectedEof),
    {
        match endianess {
            crate::types::Endianess::Little => self.read_u128le(),
            crate::types::Endianess::Big => self.read_u128be(),
            crate::types::Endianess::Native => self.read_u128_ne(),
        }
    }

    /// Reads a signed 16-bit integer in the chosen byte order.
    fn read_i16(&mut self, endianess: crate::types::Endianess) -> (r: Result<i16, DhError>)
        ensures
            read_step(old(self).sm(), 2, final(self).sm()),
            old(self).sm().read_ok(2) ==> (r matches Ok(v) && (match endianess {
                crate::types::Endianess::Little => v == crate::num::sign_decode(
                    le_val(old(self).sm().read_result(2)),
                    16,
                ),
                crate::types::Endianess::Big => v == crate::num::sign_decode(
                    be_val(old(self).sm().read_result(2)),
                    16,
                ),
                crate::types::Endianess::Native => v == crate::num::sign_decode(
                    le_val(old(self).sm().read_result(2)),
                    16,
                ) || v == crate::num::sign_decode(be_val(old(self).sm().read_result(2)), 16),
            })),
            !old(self).sm().read_ok(2) ==> r == Err::<i16, DhError>(DhError::UnexpectedEof),
    {
        match endianess {
            crate::types::Endianess::Little => self.read_i16le(),
            crate::types::Endianess::Big => self.read_i16be(),
            crate::types::Endianess::Native => {
                proof {
                    if old(self).sm().read_ok(2) {
                        read_cast_bound(old(self).sm(), 2);
                        crate::num::lemma_sign_decode_bounds(
                            le_val(old(self).sm().read_result(2)),
                            16,
                        );
                        crate::num::lemma_sign_decode_bounds(
                            be_val(old(self).sm().read_result(2)),
                            16,
                        );
                        crate::num::lemma_p2_128();
                    }
                }
                match self.read_u16_ne() {
                    Ok(u) => Ok(crate::signed::sign_extend(u as u128, 16) as i16),
                    Err(e) => Err(e),
                }
            },
        }
    }

    /// Reads a signed 32-bit integer in the chosen byte order.
    fn read_i32(&mut self, endianess: crate::types::Endianess) -> (r: Result<i32, DhError>)
        ensures
            read_step(old(self).sm(), 4, final(self).sm()),
            old(self).sm().read_ok(4) ==> (r matches Ok(v) && (match endianess {
                crate::types::Endianess::Little => v == crate::num::sign_decode(
                    le_val(old(self).sm().read_result(4)),
                    32,
                ),
                crate::types::Endianess::Big => v == crate::num::sign_decode(
                    be_val(old(self).sm().read_result(4)),
                    32,
                ),
                crate::types::Endianess::Native => v == crate::num::sign_decode(
                    le_val(old(self).sm().read_result(4)),
                    32,
                ) || v == crate::num::sign_decode(be_val(old(self).sm().read_result(4)), 32),
            })),
            !old(self).sm().read_ok(4) ==> r == Err::<i32, DhError>(DhError::UnexpectedEof),
    {
        match endianess {
            crate::types::Endianess::Little => self.read_i32le(),
            crate::types::Endianess::Big => self.read_i32be(),
            crate::types::Endianess::Native => {
                proof {
                    if old(self).sm().read_ok(4) {
                        read_cast_bound(old(self).sm(), 4);
                        crate::num::lemma_sign_decode_bounds(
                            le_val(old(self).sm().read_result(4)),
                            32,
                        );
                        crate::num::lemma_sign_decode_bounds(
                            be_val(old(self).sm().read_result(4)),
                            32,
                        );
                        crate::num::lemma_p2_128();
                    }
                }
                match self.read_u32_ne() {
                    Ok(u) => Ok(crate::signed::sign_extend(u as u128, 32) as i32),
                    Err(e) => Err(e),
                }
            },
        }
    }

    /// Reads a signed 64-bit integer in the chosen byte order.
    fn read_i64(&mut self, endianess: crate::types::Endianess) -> (r: Result<i64, DhError>)
        ensures
            read_step(old(self).sm(), 8, final(self).sm()),
            old(self).sm().read_ok(8) ==> (r matches Ok(v) && (match endianess {
                crate::types::Endianess::Little => v == crate::num::sign_decode(
                    le_val(old(self).sm().read_result(8)),
                    64,
                ),
                crate::types::Endianess::Big => v == crate::num::sign_decode(
                    be_val(old(self).sm().read_result(8)),
                    64,
                ),
                crate::types::Endianess::Native => v == crate::num::sign_decode(
                    le_val(old(self).sm().read_result(8)),
                    64,
                ) || v == crate::num::sign_decode(be_val(old(self).sm().read_result(8)), 64),
            })),
            !old(self).sm().read_ok(8) ==> r == Err::<i64, DhError>(DhError::UnexpectedEof),
    {
        match endianess {
            crate::types::Endianess::Little => self.read_i64le(),
            crate::types::Endianess::Big => self.read_i64be(),
            crate::types::Endianess::Native => {
                proof {
                    if old(self).sm().read_ok(8) {
                        read_cast_bound(old(self).sm(), 8);
                        crate::num::lemma_sign_decode_bounds(
                            le_val(old(self).sm().read_result(8)),
                            64,
                        );
                        crate::num::lemma_sign_decode_bounds(
                            be_val(old(self).sm().read_result(8)),
                            64,
                        );
                        crate::num::lemma_p2_128();
                    }
                }
                match self.read_u64_ne() {
                    Ok(u) => Ok(crate::signed::sign_extend(u as u128, 64) as i64),
                    Err(e) => Err(e),
                }
            },
        }
    }

    /// Reads a signed 128-bit integer in the chosen byte order.
    fn read_i128(&mut self, endianess: crate::types::Endianess) -> (r: Result<i128, DhError>)
        ensures
            read_step(old(self).sm(), 16, final(self).sm()),
            old(self).sm().read_ok(16) ==> (r matches Ok(v) && (match endianess {
                crate::types::Endianess::Little => v == crate::num::sign_decode(
                    le_val(old(self).sm().read_result(16)),
                    128,
                ),
                crate::types::Endianess::Big => v == crate::num::sign_decode(
                    be_val(old(self).sm().read_result(16)),
                    128,
                ),
                crate::types::Endianess::Native => v == crate::num::sign_decode(
                    le_val(old(self).sm().read_result(16)),
                    128,
                ) || v == crate::num::sign_decode(be_val(old(self).sm().read_result(16)), 128),
            })),
            !old(self).sm().read_ok(16) ==> r == Err::<i128, DhError>(DhError::UnexpectedEof),
    {
        match endianess {
            crate::types::Endianess::Little => self.read_i128le(),
            crate::types::Endianess::Big => self.read_i128be(),
            crate::types::Endianess::Native => {
                proof {
                    if old(self).sm().read_ok(16) {
                        read_cast_bound(old(self).sm(), 16);
                        crate::num::lemma_sign_decode_bounds(
                            le_val(old(self).sm().read_result(16)),
                            128,
                        );
                        crate::num::lemma_sign_decode_bounds(
                            be_val(old(self).sm().read_result(16)),
                            128,
                        );
                        crate::num::lemma_p2_128();
                    }
                }
                match self.read_u128_ne() {
                    Ok(u) => Ok(crate::signed::sign_extend(u as u128, 128)),
                    Err(e) => Err(e),
                }
            },
        }
    }

    /// Reads `len` bytes and decodes them as a `T`.
    fn read_dynamic<T: crate::dynamic::Dynamic>(&mut self, len: u64) -> (r: Result<T, DhError>)
        ensures
            read_step(old(self).sm(), len as nat, final(self).sm()),
            old(self).sm().read_ok(len as nat) ==> (if T::decodable(
                old(self).sm().read_result(len as nat),
            ) {
                r matches Ok(v) && T::decodes_to(old(self).sm().read_result(len as nat), v)
            } else {
                r == Err::<T, DhError>(DhError::InvalidData)
            }),
            !old(self).sm().read_ok(len as nat) ==> r == Err::<T, DhError>(DhError::UnexpectedEof),
    {
        let buf = match self.read_bytes(len) {
            Ok(b) => b,
            Err(e) => {
                return Err(e);
            },
        };
        T::from_bytes(buf)
    }

    /// Copies `length` bytes from the current position to `target` at its
    /// current position, at most `buffer_size` bytes at a time.
    fn copy<W: crate::write::WriteSeek>(
        &mut self,
        length: u64,
        target: &mut W,
        buffer_size: u64,
    ) -> (r: Result<(), DhError>)
        requires
            buffer_size >= 1,
        ensures
            crate::copy::copy_post(
                old(self).sm(),
                old(target).sm(),
                length as nat,
                final(self).sm(),
                final(target).sm(),
                r,
            ),
    {
        crate::copy::copy_streams(self, length, target, buffer_size)
    }

    /// Copies `length` bytes from the current position to `target` at
    /// `target_pos`, returning the target to its prior position afterwards.
    fn copy_to<W: crate::write::WriteSeek>(
        &mut self,
        target_pos: u64,
        length: u64,
        target: &mut W,
        buffer_size: u64,
    ) -> (r: Result<(), DhError>)
        requires
            buffer_size >= 1,
        ensures
            ({
                let m = old(self).sm();
                let t = old(target).sm();
                let tt = t.with_pos(t.origin() + target_pos);
                let at_ok = t.seek_ok(t.pos) && t.seek_ok(t.origin() + target_pos);
                let ok = m.read_ok(length as nat) && tt.write_ok(length as nat);
                &&& !at_ok ==> final(self).sm() == m && final(target).sm() == t && r == Err::<
                    (),
                    DhError,
                >(t.seek_err())
                &&& at_ok && length == 0 ==> r == Ok::<(), DhError>(()) && final(self).sm() == m
                    && final(target).sm() == t
                &&& at_ok && length > 0 && ok ==> r == Ok::<(), DhError>(()) && final(self).sm()
                    == m.after_read(length as nat) && final(target).sm() == tt.after_write(
                    m.read_result(length as nat),
                ).with_pos(t.pos)
                &&& at_ok && length > 0 && !ok ==> r is Err
                &&& final(self).sm().bytes == m.bytes
                &&& final(self).sm().same_frame(m)
                &&& m.pos <= final(self).sm().pos
                &&& final(target).sm().same_frame(t)
            }),
    {
        let before = match target.pos() {
            Ok(p) => p,
            Err(e) => {
                return Err(e);
            },
        };
        if let Err(e) = target.to(target_pos) {
            return Err(e);
        }
        let result = self.copy(length, target, buffer_size);
        if let Err(e) = target.to(before) {
            return Err(e);
        }
        result
    }

    /// Copies `length` bytes from position `pos` to `target` at its current
    /// position, returning this reader to its prior position afterwards.
    fn copy_at<W: crate::write::WriteSeek>(
        &mut self,
        pos: u64,
        length: u64,
        target: &mut W,
        buffer_size: u64,
    ) -> (r: Result<(), DhError>)
        requires
            buffer_size >= 1,
        ensures
            ({
                let m = old(self).sm();
                let t = old(target).sm();
                let mt = m.with_pos(m.origin() + pos);
                let at_ok = m.seek_ok(m.pos) && m.seek_ok(m.origin() + pos);
                let ok = mt.read_ok(length as nat) && t.write_ok(length as nat);
                &&& !at_ok ==> final(self).sm() == m && final(target).sm() == t && r == Err::<
                    (),
                    DhError,
                >(m.seek_err())
                &&& at_ok && length == 0 ==> r == Ok::<(), DhError>(()) && final(self).sm() == m
                    && final(target).sm() == t
                &&& at_ok && length > 0 && ok ==> r == Ok::<(), DhError>(()) && final(self).sm()
                    == m && final(target).sm() == t.after_write(mt.read_result(length as nat))
                &&& at_ok && length > 0 && !ok ==> r is Err
                &&& final(self).sm().bytes == m.bytes
                &&& final(self).sm().same_frame(m)
                &&& final(target).sm().same_frame(t)
            }),
    {
        let before = match self.pos() {
            Ok(p) => p,
            Err(e) => {
                return Err(e);
            },
        };
        if let Err(e) = self.to(pos) {
            return Err(e);
        }
        let result = self.copy(length, target, buffer_size);
        if let Err(e) = self.to(before) {
            return Err(e);
        }
        result
    }

    /// Copies `length` bytes from position `pos` to `target` at
    /// `target_pos`, returning both streams to their prior positions.
    fn copy_to_at<W: crate::write::WriteSeek>(
        &mut self,
        pos: u64,
        target_pos: u64,
        length: u64,
        target: &mut W,
        buffer_size: u64,
    ) -> (r: Result<(), DhError>)
        requires
            buffer_size >= 1,
        ensures
            ({
                let m = old(self).sm();
                let t = old(target).sm();
                let mt = m.with_pos(m.origin() + pos);
                let tt = t.with_pos(t.origin() + target_pos);
                let s_ok = m.seek_ok(m.pos) && m.seek_ok(m.origin() + pos);
                let t_ok = t.seek_ok(t.pos) && t.seek_ok(t.origin() + target_pos);
                let ok = mt.read_ok(length as nat) && tt.write_ok(length as nat);
                &&& s_ok && t_ok && length == 0 ==> r == Ok::<(), DhError>(()) && final(self).sm() == m && final(target).sm() == t
                &&& s_ok && t_ok && length > 0 && ok ==> r == Ok::<(), DhError>(()) && final(self).sm() == m && final(target).sm() == tt.after_write(
                    mt.read_result(length as nat),
                ).with_pos(t.pos)
                &&& !(s_ok && t_ok) || (length > 0 && !ok) ==> r is Err
                &&& final(self).sm().bytes == m.bytes
                &&& final(self).sm().same_frame(m)
                &&& final(target).sm().same_frame(t)
            }),
    {
        let before = match self.pos() {
            Ok(p) => p,
            Err(e) => {
                return Err(e);
            },
        };
        if let Err(e) = self.to(pos) {
            return Err(e);
        }
        let result = self.copy_to(target_pos, length, target, buffer_size);
        if let Err(e) = self.to(before) {
            return Err(e);
        }
        result
    }

    /// Copies `length` bytes to `target` in chunks of at most `chunk_size`
    /// bytes.
    fn copy_chunked<W: crate::write::WriteSeek>(
        &mut self,
        length: u64,
        target: &mut W,
        chunk_size: u64,
    ) -> (r: Result<(), DhError>)
        requires
            chunk_size >= 1,
        ensures
            crate::copy::copy_post(
                old(self).sm(),
                old(target).sm(),
                length as nat,
                final(self).sm(),
                final(target).sm(),
                r,
            ),
    {
        self.copy(length, target, chunk_size)
    }

    /// Copies `length` bytes from position `pos` to `target` in chunks of
    /// at most `chunk_size` bytes, restoring this reader's position.
    fn copy_chunked_at<W: crate::write::WriteSeek>(
        &mut self,
        pos: u64,
        length: u64,
        target: &mut W,
        chunk_size: u64,
    ) -> (r: Result<(), DhError>)
        requires
            chunk_size >= 1,
        ensures
            ({
                let m = old(self).sm();
                let t = old(target).sm();
                let mt = m.with_pos(m.origin() + pos);
                let at_ok = m.seek_ok(m.pos) && m.seek_ok(m.origin() + pos);
                let ok = mt.read_ok(length as nat) && t.write_ok(length as nat);
                &&& at_ok && length > 0 && ok ==> r == Ok::<(), DhError>(()) && final(self).sm()
                    == m && final(target).sm() == t.after_write(mt.read_result(length as nat))
                &&& final(self).sm().bytes == m.bytes
                &&& final(self).sm().same_frame(m)
                &&& final(target).sm().same_frame(t)
            }),
    {
        self.copy_at(pos, length, target, chunk_size)
    }

    /// Copies `length` bytes to `target` at `target_pos` in chunks of at
    /// most `chunk_size` bytes, restoring the target's position.
    fn copy_chunked_to<W: crate::write::WriteSeek>(
        &mut self,
        target_pos: u64,
        length: u64,
        target: &mut W,
        chunk_size: u64,
    ) -> (r: Result<(), DhError>)
        requires
            chunk_size >= 1,
        ensures
            ({
                let m = old(self).sm();
                let t = old(target).sm();
                let tt = t.with_pos(t.origin() + target_pos);
                let at_ok = t.seek_ok(t.pos) && t.seek_ok(t.origin() + target_pos);
                let ok = m.read_ok(length as nat) && tt.write_ok(length as nat);
                &&& at_ok && length > 0 && ok ==> r == Ok::<(), DhError>(()) && final(self).sm()
                    == m.after_read(length as nat) && final(target).sm() == tt.after_write(
                    m.read_result(length as nat),
                ).with_pos(t.pos)
                &&& final(self).sm().bytes == m.bytes
                &&& final(self).sm().same_frame(m)
                &&& final(target).sm().same_frame(t)
            }),
    {
        self.copy_to(target_pos, length, target, chunk_size)
    }

    /// Copies `length` bytes from position `pos` to `target` at
    /// `target_pos` in chunks of at most `chunk_size` bytes, restoring both
    /// positions.
    fn copy_chunked_to_at<W: crate::write::WriteSeek>(
        &mut self,
        pos: u64,
        target_pos: u64,
        length: u64,
        target: &mut W,
        chunk_size: u64,
    ) -> (r: Result<(), DhError>)
        requires
            chunk_size >= 1,
        ensures
            ({
                let m = old(self).sm();
                let t = old(target).sm();
                let mt = m.with_pos(m.origin() + pos);
                let tt = t.with_pos(t.origin() + target_pos);
                let s_ok = m.seek_ok(m.pos) && m.seek_ok(m.origin() + pos);
                let t_ok = t.seek_ok(t.pos) && t.seek_ok(t.origin() + target_pos);
                let ok = mt.read_ok(length as nat) && tt.write_ok(length as nat);
                &&& s_ok && t_ok && length > 0 && ok ==> r == Ok::<(), DhError>(()) && final(self).sm() == m && final(target).sm() == tt.after_write(
                    mt.read_result(length as nat),
                ).with_pos(t.pos)
                &&& final(self).sm().bytes == m.bytes
                &&& final(self).sm().same_frame(m)
                &&& final(target).sm().same_frame(t)
            }),
    {
        self.copy_to_at(pos, target_pos, length, target, chunk_size)
    }
}

/// Relies on `String::from_utf8`: it succeeds exactly on valid UTF-8 input
/// and decodes it to the text the bytes spell.
#[verifier::external_body]
pub(crate) fn string_from_utf8(bytes: Vec<u8>) -> (r: Option<String>)
    ensures
        vstd::utf8::valid_utf8(bytes@) <==> r is Some,
        r matches Some(s) ==> s@ == vstd::utf8::decode_utf8(bytes@),
{
    String::from_utf8(bytes).ok()
}

/// A value read from `n` bytes fits `n` bytes, in either byte order.
pub proof fn read_cast_bound(m: StreamModel, n: nat)
    requires
        m.read_ok(n),
        n == 1 || n == 2 || n == 4 || n == 8 || n == 16,
    ensures
        le_val(m.read_result(n)) < crate::num::p2(8 * n),
        be_val(m.read_result(n)) < crate::num::p2(8 * n),
        crate::num::p2(8 * n) <= 0x100000000000000000000000000000000,
        n == 1 ==> crate::num::p2(8 * n) == 0x100,
        n == 2 ==> crate::num::p2(8 * n) == 0x10000,
        n == 4 ==> crate::num::p2(8 * n) == 0x100000000,
        n == 8 ==> crate::num::p2(8 * n) == 0x10000000000000000,
        n == 16 ==> crate::num::p2(8 * n) == 0x100000000000000000000000000000000,
{
    lemma_le_val_bound(m.read_result(n));
    lemma_be_val_bound(m.read_result(n));
    crate::num::lemma_p2_128();
}

/// A readable root stream: it can be confined to a window, lock its
/// source, and close, handing the source back.
pub trait Readable<'a>: ReadVal + crate::limited::RootStream {
    /// What closing returns to the caller.
    spec fn closed_desc(self) -> crate::types::ClosedData;

    /// Locks the source exclusively; a no-op for in-memory sources.
    fn lock(&mut self, block: bool) -> (r: Result<(), DhError>)
        ensures
            final(self).sm() == old(self).sm(),
            r == Ok::<(), DhError>(()),
    ;

    /// Unlocks the source; a no-op for in-memory sources.
    fn unlock(&mut self) -> (r: Result<(), DhError>)
        ensures
            final(self).sm() == old(self).sm(),
            r == Ok::<(), DhError>(()),
    ;

    /// Closes the reader and hands back the source it was built over.
    fn close(self) -> (r: Result<Option<DataType<'a>>, DhError>)
        ensures
            r matches Ok(d) && crate::types::closed_desc_of(d) == self.closed_desc(),
    ;

    /// Confines the reader to the window `[pos, pos + length]` and moves it
    /// to the window's start.
    fn limit<'b>(&'b mut self, pos: u64, length: u64) -> (r: Result<
        crate::limited::RLimited<'b, Self>,
        DhError,
    >)
        requires
            pos + length <= u64::MAX,
        ensures
            r matches Ok(v) && v.sm() == crate::limited::limited_model(
                old(self).sm().with_pos(pos as int),
                pos as int,
                pos + length,
            ),
    {
        crate::limited::limit_r(self, pos, length)
    }
}



/// Relies on `u16::from_ne_bytes`: it assembles the machine-order value,
/// which is the little- or the big-endian reading depending on the target.
#[verifier::external_body]
fn u16_from_ne(b: &[u8]) -> (r: u16)
    requires
        b@.len() == 2,
    ensures
        r == le_val(b@) || r == be_val(b@),
{
    u16::from_ne_bytes(b.try_into().unwrap())
}

/// Relies on `u32::from_ne_bytes`: it assembles the machine-order value,
/// which is the little- or the big-endian reading depending on the target.
#[verifier::external_body]
fn u32_from_ne(b: &[u8]) -> (r: u32)
    requires
        b@.len() == 4,
    ensures
        r == le_val(b@) || r == be_val(b@),
{
    u32::from_ne_bytes(b.try_into().unwrap())
}

/// Relies on `u64::from_ne_bytes`: it assembles the machine-order value,
/// which is the little- or the big-endian reading depending on the target.
#[verifier::external_body]
fn u64_from_ne(b: &[u8]) -> (r: u64)
    requires
        b@.len() == 8,
    ensures
        r == le_val(b@) || r == be_val(b@),
{
    u64::from_ne_bytes(b.try_into().unwrap())
}

/// Relies on `u128::from_ne_bytes`: it assembles the machine-order value,
/// which is the little- or the big-endian reading depending on the target.
#[verifier::external_body]
fn u128_from_ne(b: &[u8]) -> (r: u128)
    requires
        b@.len() == 16,
    ensures
        r == le_val(b@) || r == be_val(b@),
{
    u128::from_ne_bytes(b.try_into().unwrap())
}

} // verus!
