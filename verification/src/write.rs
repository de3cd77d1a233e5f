use crate::error::DhError;
use crate::num::{be_bytes, le_bytes, lemma_be_bytes_len, lemma_le_bytes_len, lemma_p2_128, p2,
    p2_u128, u128_to_be, u128_to_le};
use crate::seek::{Seekable, StreamModel};
use crate::types::DataType;
use vstd::prelude::*;

verus! {

/// What [`WriteVal::write_bytes`] does: when the range is writable the bytes
/// are laid down and the position advances; otherwise nothing changes and
/// the stream's rejection error is reported.
pub open spec fn write_post(
    m: StreamModel,
    data: Seq<u8>,
    m2: StreamModel,
    r: Result<(), DhError>,
) -> bool {
    if m.write_ok(data.len()) {
        &&& m2 == m.after_write(data)
        &&& r == Ok::<(), DhError>(())
    } else {
        &&& m2 == m
        &&& r == Err::<(), DhError>(m.write_err(data.len()))
    }
}

/// The bytes after the backing store is resized to `len`: shortened, or
/// padded with zeroes.
pub open spec fn resized(bytes: Seq<u8>, len: nat) -> Seq<u8> {
    if len <= bytes.len() {
        bytes.take(len as int)
    } else {
        bytes + Seq::<u8>::new((len - bytes.len()) as nat, |i: int| 0u8)
    }
}

/// What [`Writable::allocate`] does: a root buffer is resized in place,
/// whether or not plain writes may grow it; any other target refuses.
pub open spec fn alloc_post(
    m: StreamModel,
    len: nat,
    m2: StreamModel,
    r: Result<(), DhError>,
) -> bool {
    if !m.bounded && len <= usize::MAX {
        &&& m2 == (StreamModel { bytes: resized(m.bytes, len), ..m })
        &&& r == Ok::<(), DhError>(())
    } else {
        &&& m2 == m
        &&& r == Err::<(), DhError>(DhError::InvalidInput)
    }
}

/// How a write of `n` bytes moves the stream, whether or not it succeeds.
pub open spec fn write_step(m: StreamModel, data: Seq<u8>, m2: StreamModel) -> bool {
    m2 == if m.write_ok(data.len()) {
        m.after_write(data)
    } else {
        m
    }
}

/// A seekable byte sink: the one primitive every writer must supply.
pub trait WriteSeek: Seekable {
    /// Writes all of `buf` at the current position.
    fn write_bytes(&mut self, buf: &[u8]) -> (r: Result<(), DhError>)
        ensures
            write_post(old(self).sm(), buf@, final(self).sm(), r),
    ;
}

/// Typed writes over a stream.  Only [`WriteSeek::write_bytes`] is
/// primitive; every method here is derived from its contract together with
/// [`Seekable::seek`]'s.
pub trait WriteVal: WriteSeek {
    /// Writes `num` as a `size`-byte unsigned integer in little-endian byte
    /// order, refusing a value that does not fit the width.
    fn write_uxle(&mut self, size: u8, num: u128) -> (r: Result<(), DhError>)
        requires
            size <= 16,
        ensures
            num < p2(8 * size as nat) ==> write_post(
                old(self).sm(),
                le_bytes(size as nat, num as nat),
                final(self).sm(),
                r,
            ),
            num >= p2(8 * size as nat) ==> final(self).sm() == old(self).sm() && r == Err::<
                (),
                DhError,
            >(DhError::InvalidInput),
    {
        proof {
            lemma_p2_128();
        }
        if size < 16 {
            let limit = p2_u128(8 * size as u32);
            if num >= limit {
                return Err(DhError::InvalidInput);
            }
        }
        proof {
            crate::num::lemma_p2_mono(8 * size as nat, 128);
        }
        let bytes = u128_to_le(size as usize, num);
        self.write_bytes(bytes.as_slice())
    }

    /// Writes `num` as a `size`-byte unsigned integer in big-endian byte
    /// order, refusing a value that does not fit the width.
    fn write_uxbe(&mut self, size: u8, num: u128) -> (r: Result<(), DhError>)
        requires
            size <= 16,
        ensures
            num < p2(8 * size as nat) ==> write_post(
                old(self).sm(),
                be_bytes(size as nat, num as nat),
                final(self).sm(),
                r,
            ),
            num >= p2(8 * size as nat) ==> final(self).sm() == old(self).sm() && r == Err::<
                (),
                DhError,
            >(DhError::InvalidInput),
    {
        proof {
            lemma_p2_128();
        }
        if size < 16 {
            let limit = p2_u128(8 * size as u32);
            if num >= limit {
                return Err(DhError::InvalidInput);
            }
        }
        let bytes = u128_to_be(size as usize, num);
        self.write_bytes(bytes.as_slice())
    }

    /// Writes an unsigned 8-bit integer.
    fn write_u8(&mut self, num: u8) -> (r: Result<(), DhError>)
        ensures
            write_post(old(self).sm(), le_bytes(1, num as nat), final(self).sm(), r),
    {
        proof {
            lemma_p2_128();
        }
        self.write_uxle(1, num as u128)
    }

    /// Writes an unsigned 16-bit integer in little-endian byte order.
    fn write_u16le(&mut self, num: u16) -> (r: Result<(), DhError>)
        ensures
            write_post(old(self).sm(), le_bytes(2, num as nat), final(self).sm(), r),
    {
        proof {
            lemma_p2_128();
        }
        self.write_uxle(2, num as u128)
    }

    /// Writes an unsigned 16-bit integer in big-endian byte order.
    fn write_u16be(&mut self, num: u16) -> (r: Result<(), DhError>)
        ensures
            write_post(old(self).sm(), be_bytes(2, num as nat), final(self).sm(), r),
    {
        proof {
            lemma_p2_128();
        }
        self.write_uxbe(2, num as u128)
    }

    /// Writes an unsigned 32-bit integer in little-endian byte order.
    fn write_u32le(&mut self, num: u32) -> (r: Result<(), DhError>)
        ensures
            write_post(old(self).sm(), le_bytes(4, num as nat), final(self).sm(), r),
    {
        proof {
            lemma_p2_128();
        }
        self.write_uxle(4, num as u128)
    }

    /// Writes an unsigned 32-bit integer in big-endian byte order.
    fn write_u32be(&mut self, num: u32) -> (r: Result<(), DhError>)
        ensures
            write_post(old(self).sm(), be_bytes(4, num as nat), final(self).sm(), r),
    {
        proof {
            lemma_p2_128();
        }
        self.write_uxbe(4, num as u128)
    }

    /// Writes an unsigned 64-bit integer in little-endian byte order.
    fn write_u64le(&mut self, num: u64) -> (r: Result<(), DhError>)
        ensures
            write_post(old(self).sm(), le_bytes(8, num as nat), final(self).sm(), r),
    {
        proof {
            lemma_p2_128();
        }
        self.write_uxle(8, num as u128)
    }

    /// Writes an unsigned 64-bit integer in big-endian byte order.
    fn write_u64be(&mut self, num: u64) -> (r: Result<(), DhError>)
        ensures
            write_post(old(self).sm(), be_bytes(8, num as nat), final(self).sm(), r),
    {
        proof {
            lemma_p2_128();
        }
        self.write_uxbe(8, num as u128)
    }

    /// Writes an unsigned 128-bit integer in little-endian byte order.
    fn write_u128le(&mut self, num: u128) -> (r: Result<(), DhError>)
        ensures
            write_post(old(self).sm(), le_bytes(16, num as nat), final(self).sm(), r),
    {
        proof {
            lemma_p2_128();
        }
        self.write_uxle(16, num)
    }

    /// Writes an unsigned 128-bit integer in big-endian byte order.
    fn write_u128be(&mut self, num: u128) -> (r: Result<(), DhError>)
        ensures
            write_post(old(self).sm(), be_bytes(16, num as nat), final(self).sm(), r),
    {
        proof {
            lemma_p2_128();
        }
        self.write_uxbe(16, num)
    }

    /// Writes an unsigned variable-length integer in little-endian byte order.
    fn write_vuxle(&mut self, size: u8, num: u128) -> (r: Result<(), DhError>)
        requires
            1 <= size <= 16,
        ensures
            write_post(
                old(self).sm(),
                crate::variable::vux_bytes(size as nat, num as nat, false, false),
                final(self).sm(),
                r,
            ),
    {
        crate::variable::write_varint(self, size, num, false, false)
    }

    /// Writes an unsigned variable-length integer in big-endian byte order.
    fn write_vuxbe(&mut self, size: u8, num: u128) -> (r: Result<(), DhError>)
        requires
            1 <= size <= 16,
        ensures
            write_post(
                old(self).sm(),
                crate::variable::vux_bytes(size as nat, num as nat, true, false),
                final(self).sm(),
                r,
            ),
    {
        crate::variable::write_varint(self, size, num, true, false)
    }

    /// Writes an unsigned variable-length integer in reversed little-endian byte order.
    fn write_vuxler(&mut self, size: u8, num: u128) -> (r: Result<(), DhError>)
        requires
            1 <= size <= 16,
        ensures
            write_post(
                old(self).sm(),
                crate::variable::vux_bytes(size as nat, num as nat, false, true),
                final(self).sm(),
                r,
            ),
    {
        crate::variable::write_varint(self, size, num, false, true)
    }

    /// Writes an unsigned variable-length integer in reversed big-endian byte order.
    fn write_vuxber(&mut self, size: u8, num: u128) -> (r: Result<(), DhError>)
        requires
            1 <= size <= 16,
        ensures
            write_post(
                old(self).sm(),
                crate::variable::vux_bytes(size as nat, num as nat, true, true),
                final(self).sm(),
                r,
            ),
    {
        crate::variable::write_varint(self, size, num, true, true)
    }

    /// Writes an unsigned 7-bit-group variable-length integer in stream byte order.
    fn write_vu7(&mut self, num: u128) -> (r: Result<(), DhError>)
        ensures
            write_post(
                old(self).sm(),
                crate::variable::vux_bytes(1, num as nat, false, false),
                final(self).sm(),
                r,
            ),
    {
        crate::variable::write_varint(self, 1, num, false, false)
    }

    /// Writes an unsigned 7-bit-group variable-length integer in reversed order.
    fn write_vu7r(&mut self, num: u128) -> (r: Result<(), DhError>)
        ensures
            write_post(
                old(self).sm(),
                crate::variable::vux_bytes(1, num as nat, false, true),
                final(self).sm(),
                r,
            ),
    {
        crate::variable::write_varint(self, 1, num, false, true)
    }

    /// Writes an unsigned 15-bit-group variable-length integer in little-endian byte order.
    fn write_vu15le(&mut self, num: u128) -> (r: Result<(), DhError>)
        ensures
            write_post(
                old(self).sm(),
                crate::variable::vux_bytes(2, num as nat, false, false),
                final(self).sm(),
                r,
            ),
    {
        crate::variable::write_varint(self, 2, num, false, false)
    }

    /// Writes an unsigned 15-bit-group variable-length integer in big-endian byte order.
    fn write_vu15be(&mut self, num: u128) -> (r: Result<(), DhError>)
        ensures
            write_post(
                old(self).sm(),
                crate::variable::vux_bytes(2, num as nat, true, false),
                final(self).sm(),
                r,
            ),
    {
        crate::variable::write_varint(self, 2, num, true, false)
    }

    /// Writes an unsigned 15-bit-group variable-length integer in reversed little-endian byte order.
    fn write_vu15ler(&mut self, num: u128) -> (r: Result<(), DhError>)
        ensures
            write_post(
                old(self).sm(),
                crate::variable::vux_bytes(2, num as nat, false, true),
                final(self).sm(),
                r,
            ),
    {
        crate::variable::write_varint(self, 2, num, false, true)
    }

    /// Writes an unsigned 15-bit-group variable-length integer in reversed big-endian byte order.
    fn write_vu15ber(&mut self, num: u128) -> (r: Result<(), DhError>)
        ensures
            write_post(
                old(self).sm(),
                crate::variable::vux_bytes(2, num as nat, true, true),
                final(self).sm(),
                r,
            ),
    {
        crate::variable::write_varint(self, 2, num, true, true)
    }

    /// Writes an unsigned 31-bit-group variable-length integer in little-endian byte order.
    fn write_vu31le(&mut self, num: u128) -> (r: Result<(), DhError>)
        ensures
            write_post(
                old(self).sm(),
                crate::variable::vux_bytes(4, num as nat, false, false),
                final(self).sm(),
                r,
            ),
    {
        crate::variable::write_varint(self, 4, num, false, false)
    }

    /// Writes an unsigned 31-bit-group variable-length integer in big-endian byte order.
    fn write_vu31be(&mut self, num: u128) -> (r: Result<(), DhError>)
        ensures
            write_post(
                old(self).sm(),
                crate::variable::vux_bytes(4, num as nat, true, false),
                final(self).sm(),
                r,
            ),
    {
        crate::variable::write_varint(self, 4, num, true, false)
    }

    /// Writes an unsigned 31-bit-group variable-length integer in reversed little-endian byte order.
    fn write_vu31ler(&mut self, num: u128) -> (r: Result<(), DhError>)
        ensures
            write_post(
                old(self).sm(),
                crate::variable::vux_bytes(4, num as nat, false, true),
                final(self).sm(),
                r,
            ),
    {
        crate::variable::write_varint(self, 4, num, false, true)
    }

    /// Writes an unsigned 31-bit-group variable-length integer in reversed big-endian byte order.
    fn write_vu31ber(&mut self, num: u128) -> (r: Result<(), DhError>)
        ensures
            write_post(
                old(self).sm(),
                crate::variable::vux_bytes(4, num as nat, true, true),
                final(self).sm(),
                r,
            ),
    {
        crate::variable::write_varint(self, 4, num, true, true)
    }

    /// Writes an unsigned 63-bit-group variable-length integer in little-endian byte order.
    fn write_vu63le(&mut self, num: u128) -> (r: Result<(), DhError>)
        ensures
            write_post(
                old(self).sm(),
                crate::variable::vux_bytes(8, num as nat, false, false),
                final(self).sm(),
                r,
            ),
    {
        crate::variable::write_varint(self, 8, num, false, false)
    }

    /// Writes an unsigned 63-bit-group variable-length integer in big-endian byte order.
    fn write_vu63be(&mut self, num: u128) -> (r: Result<(), DhError>)
        ensures
            write_post(
                old(self).sm(),
                crate::variable::vux_bytes(8, num as nat, true, false),
                final(self).sm(),
                r,
            ),
    {
        crate::variable::write_varint(self, 8, num, true, false)
    }

    /// Writes an unsigned 63-bit-group variable-length integer in reversed little-endian byte order.
    fn write_vu63ler(&mut self, num: u128) -> (r: Result<(), DhError>)
        ensures
            write_post(
                old(self).sm(),
                crate::variable::vux_bytes(8, num as nat, false, true),
                final(self).sm(),
                r,
            ),
    {
        crate::variable::write_varint(self, 8, num, false, true)
    }

    /// Writes an unsigned 63-bit-group variable-length integer in reversed big-endian byte order.
    fn write_vu63ber(&mut self, num: u128) -> (r: Result<(), DhError>)
        ensures
            write_post(
                old(self).sm(),
                crate::variable::vux_bytes(8, num as nat, true, true),
                final(self).sm(),
                r,
            ),
    {
        crate::variable::write_varint(self, 8, num, true, true)
    }

    /// Writes an unsigned 127-bit-group variable-length integer in little-endian byte order.
    fn write_vu127le(&mut self, num: u128) -> (r: Result<(), DhError>)
        ensures
            write_post(
                old(self).sm(),
                crate::variable::vux_bytes(16, num as nat, false, false),
                final(self).sm(),
                r,
            ),
    {
        crate::variable::write_varint(self, 16, num, false, false)
    }

    /// Writes an unsigned 127-bit-group variable-length integer in big-endian byte order.
    fn write_vu127be(&mut self, num: u128) -> (r: Result<(), DhError>)
        ensures
            write_post(
                old(self).sm(),
                crate::variable::vux_bytes(16, num as nat, true, false),
                final(self).sm(),
                r,
            ),
    {
        crate::variable::write_varint(self, 16, num, true, false)
    }

    /// Writes an unsigned 127-bit-group variable-length integer in reversed little-endian byte order.
    fn write_vu127ler(&mut self, num: u128) -> (r: Result<(), DhError>)
        ensures
            write_post(
                old(self).sm(),
                crate::variable::vux_bytes(16, num as nat, false, true),
                final(self).sm(),
                r,
            ),
    {
        crate::variable::write_varint(self, 16, num, false, true)
    }

    /// Writes an unsigned 127-bit-group variable-length integer in reversed big-endian byte order.
    fn write_vu127ber(&mut self, num: u128) -> (r: Result<(), DhError>)
        ensures
            write_post(
                old(self).sm(),
                crate::variable::vux_bytes(16, num as nat, true, true),
                final(self).sm(),
                r,
            ),
    {
        crate::variable::write_varint(self, 16, num, true, true)
    }

    /// Writes a `size`-byte signed integer in little-endian byte order: the
    /// two's-complement bit pattern of `num`, masked to the width.
    fn write_ixle(&mut self, size: u8, num: i128) -> (r: Result<(), DhError>)
        requires
            1 <= size <= 16,
        ensures
            write_post(
                old(self).sm(),
                le_bytes(size as nat, crate::num::sign_encode(num as int, (8 * size) as nat)),
                final(self).sm(),
                r,
            ),
    {
        let u = crate::signed::signed_to_unsigned(num, size);
        proof {
            crate::num::lemma_sign_encode_bound(num as int, (8 * size) as nat);
        }
        self.write_uxle(size, u)
    }

    /// Writes a `size`-byte signed integer in big-endian byte order: the
    /// two's-complement bit pattern of `num`, masked to the width.
    fn write_ixbe(&mut self, size: u8, num: i128) -> (r: Result<(), DhError>)
        requires
            1 <= size <= 16,
        ensures
            write_post(
                old(self).sm(),
                be_bytes(size as nat, crate::num::sign_encode(num as int, (8 * size) as nat)),
                final(self).sm(),
                r,
            ),
    {
        let u = crate::signed::signed_to_unsigned(num, size);
        proof {
            crate::num::lemma_sign_encode_bound(num as int, (8 * size) as nat);
        }
        self.write_uxbe(size, u)
    }

    /// Writes a signed 8-bit integer.
    fn write_i8(&mut self, num: i8) -> (r: Result<(), DhError>)
        ensures
            write_post(
                old(self).sm(),
                le_bytes(1, crate::num::sign_encode(num as int, 8)),
                final(self).sm(),
                r,
            ),
    {
        self.write_ixle(1, num as i128)
    }

    /// Writes a signed 16-bit integer in little-endian byte order.
    fn write_i16le(&mut self, num: i16) -> (r: Result<(), DhError>)
        ensures
            write_post(
                old(self).sm(),
                le_bytes(2, crate::num::sign_encode(num as int, 16)),
                final(self).sm(),
                r,
            ),
    {
        self.write_ixle(2, num as i128)
    }

    /// Writes a signed 16-bit integer in big-endian byte order.
    fn write_i16be(&mut self, num: i16) -> (r: Result<(), DhError>)
        ensures
            write_post(
                old(self).sm(),
                be_bytes(2, crate::num::sign_encode(num as int, 16)),
                final(self).sm(),
                r,
            ),
    {
        self.write_ixbe(2, num as i128)
    }

    /// Writes a signed 32-bit integer in little-endian byte order.
    fn write_i32le(&mut self, num: i32) -> (r: Result<(), DhError>)
        ensures
            write_post(
                old(self).sm(),
                le_bytes(4, crate::num::sign_encode(num as int, 32)),
                final(self).sm(),
                r,
            ),
    {
        self.write_ixle(4, num as i128)
    }

    /// Writes a signed 32-bit integer in big-endian byte order.
    fn write_i32be(&mut self, num: i32) -> (r: Result<(), DhError>)
        ensures
            write_post(
                old(self).sm(),
                be_bytes(4, crate::num::sign_encode(num as int, 32)),
                final(self).sm(),
                r,
            ),
    {
        self.write_ixbe(4, num as i128)
    }

    /// Writes a signed 64-bit integer in little-endian byte order.
    fn write_i64le(&mut self, num: i64) -> (r: Result<(), DhError>)
        ensures
            write_post(
                old(self).sm(),
                le_bytes(8, crate::num::sign_encode(num as int, 64)),
                final(self).sm(),
                r,
            ),
    {
        self.write_ixle(8, num as i128)
    }

    /// Writes a signed 64-bit integer in big-endian byte order.
    fn write_i64be(&mut self, num: i64) -> (r: Result<(), DhError>)
        ensures
            write_post(
                old(self).sm(),
                be_bytes(8, crate::num::sign_encode(num as int, 64)),
                final(self).sm(),
                r,
            ),
    {
        self.write_ixbe(8, num as i128)
    }

    /// Writes a signed 128-bit integer in little-endian byte order.
    fn write_i128le(&mut self, num: i128) -> (r: Result<(), DhError>)
        ensures
            write_post(
                old(self).sm(),
                le_bytes(16, crate::num::sign_encode(num as int, 128)),
                final(self).sm(),
                r,
            ),
    {
        self.write_ixle(16, num as i128)
    }

    /// Writes a signed 128-bit integer in big-endian byte order.
    fn write_i128be(&mut self, num: i128) -> (r: Result<(), DhError>)
        ensures
            write_post(
                old(self).sm(),
                be_bytes(16, crate::num::sign_encode(num as int, 128)),
                final(self).sm(),
                r,
            ),
    {
        self.write_ixbe(16, num as i128)
    }

    /// Writes a signed variable-length integer in little-endian byte order: the data bits of
    /// `num`, masked to one group's width, sent through the unsigned path.
    fn write_vixle(&mut self, size: u8, num: i128) -> (r: Result<(), DhError>)
        requires
            1 <= size <= 16,
        ensures
            write_post(
                old(self).sm(),
                crate::variable::vux_bytes(
                    size as nat,
                    crate::signed::signed_vi_pattern(num as int, size as nat),
                    false,
                    false,
                ),
                final(self).sm(),
                r,
            ),
    {
        let u = crate::signed::signed_to_unsigned_vi(num, size);
        crate::variable::write_varint(self, size, u, false, false)
    }

    /// Writes a signed variable-length integer in big-endian byte order: the data bits of
    /// `num`, masked to one group's width, sent through the unsigned path.
    fn write_vixbe(&mut self, size: u8, num: i128) -> (r: Result<(), DhError>)
        requires
            1 <= size <= 16,
        ensures
            write_post(
                old(self).sm(),
                crate::variable::vux_bytes(
                    size as nat,
                    crate::signed::signed_vi_pattern(num as int, size as nat),
                    true,
                    false,
                ),
                final(self).sm(),
                r,
            ),
    {
        let u = crate::signed::signed_to_unsigned_vi(num, size);
        crate::variable::write_varint(self, size, u, true, false)
    }

    /// Writes a signed variable-length integer in reversed little-endian byte order: the data bits of
    /// `num`, masked to one group's width, sent through the unsigned path.
    fn write_vixler(&mut self, size: u8, num: i128) -> (r: Result<(), DhError>)
        requires
            1 <= size <= 16,
        ensures
            write_post(
                old(self).sm(),
                crate::variable::vux_bytes(
                    size as nat,
                    crate::signed::signed_vi_pattern(num as int, size as nat),
                    false,
                    true,
                ),
                final(self).sm(),
                r,
            ),
    {
        let u = crate::signed::signed_to_unsigned_vi(num, size);
        crate::variable::write_varint(self, size, u, false, true)
    }

    /// Writes a signed variable-length integer in reversed big-endian byte order: the data bits of
    /// `num`, masked to one group's width, sent through the unsigned path.
    fn write_vixber(&mut self, size: u8, num: i128) -> (r: Result<(), DhError>)
        requires
            1 <= size <= 16,
        ensures
            write_post(
                old(self).sm(),
                crate::variable::vux_bytes(
                    size as nat,
                    crate::signed::signed_vi_pattern(num as int, size as nat),
                    true,
                    true,
                ),
                final(self).sm(),
                r,
            ),
    {
        let u = crate::signed::signed_to_unsigned_vi(num, size);
        crate::variable::write_varint(self, size, u, true, true)
    }

    /// Writes a signed 7-bit-group variable-length integer in stream byte order.
    fn write_vi7(&mut self, num: i128) -> (r: Result<(), DhError>)
        ensures
            write_post(
                old(self).sm(),
                crate::variable::vux_bytes(
                    1,
                    crate::signed::signed_vi_pattern(num as int, 1),
                    false,
                    false,
                ),
                final(self).sm(),
                r,
            ),
    {
        let u = crate::signed::signed_to_unsigned_vi(num, 1);
        crate::variable::write_varint(self, 1, u, false, false)
    }

    /// Writes a signed 7-bit-group variable-length integer in reversed order.
    fn write_vi7r(&mut self, num: i128) -> (r: Result<(), DhError>)
        ensures
            write_post(
                old(self).sm(),
                crate::variable::vux_bytes(
                    1,
                    crate::signed::signed_vi_pattern(num as int, 1),
                    false,
                    true,
                ),
                final(self).sm(),
                r,
            ),
    {
        let u = crate::signed::signed_to_unsigned_vi(num, 1);
        crate::variable::write_varint(self, 1, u, false, true)
    }

    /// Writes a signed 15-bit-group variable-length integer in little-endian byte order.
    fn write_vi15le(&mut self, num: i128) -> (r: Result<(), DhError>)
        ensures
            write_post(
                old(self).sm(),
                crate::variable::vux_bytes(
                    2,
                    crate::signed::signed_vi_pattern(num as int, 2),
                    false,
                    false,
                ),
                final(self).sm(),
                r,
            ),
    {
        let u = crate::signed::signed_to_unsigned_vi(num, 2);
        crate::variable::write_varint(self, 2, u, false, false)
    }

    /// Writes a signed 15-bit-group variable-length integer in big-endian byte order.
    fn write_vi15be(&mut self, num: i128) -> (r: Result<(), DhError>)
        ensures
            write_post(
                old(self).sm(),
                crate::variable::vux_bytes(
                    2,
                    crate::signed::signed_vi_pattern(num as int, 2),
                    true,
                    false,
                ),
                final(self).sm(),
                r,
            ),
    {
        let u = crate::signed::signed_to_unsigned_vi(num, 2);
        crate::variable::write_varint(self, 2, u, true, false)
    }

    /// Writes a signed 15-bit-group variable-length integer in reversed little-endian byte order.
    fn write_vi15ler(&mut self, num: i128) -> (r: Result<(), DhError>)
        ensures
            write_post(
                old(self).sm(),
                crate::variable::vux_bytes(
                    2,
                    crate::signed::signed_vi_pattern(num as int, 2),
                    false,
                    true,
                ),
                final(self).sm(),
                r,
            ),
    {
        let u = crate::signed::signed_to_unsigned_vi(num, 2);
        crate::variable::write_varint(self, 2, u, false, true)
    }

    /// Writes a signed 15-bit-group variable-length integer in reversed big-endian byte order.
    fn write_vi15ber(&mut self, num: i128) -> (r: Result<(), DhError>)
        ensures
            write_post(
                old(self).sm(),
                crate::variable::vux_bytes(
                    2,
                    crate::signed::signed_vi_pattern(num as int, 2),
                    true,
                    true,
                ),
                final(self).sm(),
                r,
            ),
    {
        let u = crate::signed::signed_to_unsigned_vi(num, 2);
        crate::variable::write_varint(self, 2, u, true, true)
    }

    /// Writes a signed 31-bit-group variable-length integer in little-endian byte order.
    fn write_vi31le(&mut self, num: i128) -> (r: Result<(), DhError>)
        ensures
            write_post(
                old(self).sm(),
                crate::variable::vux_bytes(
                    4,
                    crate::signed::signed_vi_pattern(num as int, 4),
                    false,
                    false,
                ),
                final(self).sm(),
                r,
            ),
    {
        let u = crate::signed::signed_to_unsigned_vi(num, 4);
        crate::variable::write_varint(self, 4, u, false, false)
    }

    /// Writes a signed 31-bit-group variable-length integer in big-endian byte order.
    fn write_vi31be(&mut self, num: i128) -> (r: Result<(), DhError>)
        ensures
            write_post(
                old(self).sm(),
                crate::variable::vux_bytes(
                    4,
                    crate::signed::signed_vi_pattern(num as int, 4),
                    true,
                    false,
                ),
                final(self).sm(),
                r,
            ),
    {
        let u = crate::signed::signed_to_unsigned_vi(num, 4);
        crate::variable::write_varint(self, 4, u, true, false)
    }

    /// Writes a signed 31-bit-group variable-length integer in reversed little-endian byte order.
    fn write_vi31ler(&mut self, num: i128) -> (r: Result<(), DhError>)
        ensures
            write_post(
                old(self).sm(),
                crate::variable::vux_bytes(
                    4,
                    crate::signed::signed_vi_pattern(num as int, 4),
                    false,
                    true,
                ),
                final(self).sm(),
                r,
            ),
    {
        let u = crate::signed::signed_to_unsigned_vi(num, 4);
        crate::variable::write_varint(self, 4, u, false, true)
    }

    /// Writes a signed 31-bit-group variable-length integer in reversed big-endian byte order.
    fn write_vi31ber(&mut self, num: i128) -> (r: Result<(), DhError>)
        ensures
            write_post(
                old(self).sm(),
                crate::variable::vux_bytes(
                    4,
                    crate::signed::signed_vi_pattern(num as int, 4),
                    true,
                    true,
                ),
                final(self).sm(),
                r,
            ),
    {
        let u = crate::signed::signed_to_unsigned_vi(num, 4);
        crate::variable::write_varint(self, 4, u, true, true)
    }

    /// Writes a signed 63-bit-group variable-length integer in little-endian byte order.
    fn write_vi63le(&mut self, num: i128) -> (r: Result<(), DhError>)
        ensures
            write_post(
                old(self).sm(),
                crate::variable::vux_bytes(
                    8,
                    crate::signed::signed_vi_pattern(num as int, 8),
                    false,
                    false,
                ),
                final(self).sm(),
                r,
            ),
    {
        let u = crate::signed::signed_to_unsigned_vi(num, 8);
        crate::variable::write_varint(self, 8, u, false, false)
    }

    /// Writes a signed 63-bit-group variable-length integer in big-endian byte order.
    fn write_vi63be(&mut self, num: i128) -> (r: Result<(), DhError>)
        ensures
            write_post(
                old(self).sm(),
                crate::variable::vux_bytes(
                    8,
                    crate::signed::signed_vi_pattern(num as int, 8),
                    true,
                    false,
                ),
                final(self).sm(),
                r,
            ),
    {
        let u = crate::signed::signed_to_unsigned_vi(num, 8);
        crate::variable::write_varint(self, 8, u, true, false)
    }

    /// Writes a signed 63-bit-group variable-length integer in reversed little-endian byte order.
    fn write_vi63ler(&mut self, num: i128) -> (r: Result<(), DhError>)
        ensures
            write_post(
                old(self).sm(),
                crate::variable::vux_bytes(
                    8,
                    crate::signed::signed_vi_pattern(num as int, 8),
                    false,
                    true,
                ),
                final(self).sm(),
                r,
            ),
    {
        let u = crate::signed::signed_to_unsigned_vi(num, 8);
        crate::variable::write_varint(self, 8, u, false, true)
    }

    /// Writes a signed 63-bit-group variable-length integer in reversed big-endian byte order.
    fn write_vi63ber(&mut self, num: i128) -> (r: Result<(), DhError>)
        ensures
            write_post(
                old(self).sm(),
                crate::variable::vux_bytes(
                    8,
                    crate::signed::signed_vi_pattern(num as int, 8),
                    true,
                    true,
                ),
                final(self).sm(),
                r,
            ),
    {
        let u = crate::signed::signed_to_unsigned_vi(num, 8);
        crate::variable::write_varint(self, 8, u, true, true)
    }

    /// Writes a signed 127-bit-group variable-length integer in little-endian byte order.
    fn write_vi127le(&mut self, num: i128) -> (r: Result<(), DhError>)
        ensures
            write_post(
                old(self).sm(),
                crate::variable::vux_bytes(
                    16,
                    crate::signed::signed_vi_pattern(num as int, 16),
                    false,
                    false,
                ),
                final(self).sm(),
                r,
            ),
    {
        let u = crate::signed::signed_to_unsigned_vi(num, 16);
        crate::variable::write_varint(self, 16, u, false, false)
    }

    /// Writes a signed 127-bit-group variable-length integer in big-endian byte order.
    fn write_vi127be(&mut self, num: i128) -> (r: Result<(), DhError>)
        ensures
            write_post(
                old(self).sm(),
                crate::variable::vux_bytes(
                    16,
                    crate::signed::signed_vi_pattern(num as int, 16),
                    true,
                    false,
                ),
                final(self).sm(),
                r,
            ),
    {
        let u = crate::signed::signed_to_unsigned_vi(num, 16);
        crate::variable::write_varint(self, 16, u, true, false)
    }

    /// Writes a signed 127-bit-group variable-length integer in reversed little-endian byte order.
    fn write_vi127ler(&mut self, num: i128) -> (r: Result<(), DhError>)
        ensures
            write_post(
                old(self).sm(),
                crate::variable::vux_bytes(
                    16,
                    crate::signed::signed_vi_pattern(num as int, 16),
                    false,
                    true,
                ),
                final(self).sm(),
                r,
            ),
    {
        let u = crate::signed::signed_to_unsigned_vi(num, 16);
        crate::variable::write_varint(self, 16, u, false, true)
    }

    /// Writes a signed 127-bit-group variable-length integer in reversed big-endian byte order.
    fn write_vi127ber(&mut self, num: i128) -> (r: Result<(), DhError>)
        ensures
            write_post(
                old(self).sm(),
                crate::variable::vux_bytes(
                    16,
                    crate::signed::signed_vi_pattern(num as int, 16),
                    true,
                    true,
                ),
                final(self).sm(),
                r,
            ),
    {
        let u = crate::signed::signed_to_unsigned_vi(num, 16);
        crate::variable::write_varint(self, 16, u, true, true)
    }

    /// Writes a variable-length integer over 8-bit groups, lowest
    /// digit first.
    fn write_vu8(&mut self, num: u128) -> (r: Result<(), DhError>)
        ensures
            write_post(
                old(self).sm(),
                crate::variable::vux_bytes(1, num as nat, false, false),
                final(self).sm(),
                r,
            ),
    {
        crate::variable::write_varint(self, 1, num, false, false)
    }

    /// Writes a variable-length integer over 16-bit groups, lowest
    /// digit first.
    fn write_vu16_le(&mut self, num: u128) -> (r: Result<(), DhError>)
        ensures
            write_post(
                old(self).sm(),
                crate::variable::vux_bytes(2, num as nat, false, false),
                final(self).sm(),
                r,
            ),
    {
        crate::variable::write_varint(self, 2, num, false, false)
    }

    /// Writes a variable-length integer over 16-bit groups, lowest
    /// digit first, groups in big-endian byte order.
    fn write_vu16_be(&mut self, num: u128) -> (r: Result<(), DhError>)
        ensures
            write_post(
                old(self).sm(),
                crate::variable::vux_bytes(2, num as nat, true, false),
                final(self).sm(),
                r,
            ),
    {
        crate::variable::write_varint(self, 2, num, true, false)
    }

    /// Writes a variable-length integer over 32-bit groups, lowest
    /// digit first.
    fn write_vu32_le(&mut self, num: u128) -> (r: Result<(), DhError>)
        ensures
            write_post(
                old(self).sm(),
                crate::variable::vux_bytes(4, num as nat, false, false),
                final(self).sm(),
                r,
            ),
    {
        crate::variable::write_varint(self, 4, num, false, false)
    }

    /// Writes a variable-length integer over 32-bit groups, lowest
    /// digit first, groups in big-endian byte order.
    fn write_vu32_be(&mut self, num: u128) -> (r: Result<(), DhError>)
        ensures
            write_post(
                old(self).sm(),
                crate::variable::vux_bytes(4, num as nat, true, false),
                final(self).sm(),
                r,
            ),
    {
        crate::variable::write_varint(self, 4, num, true, false)
    }

    /// Writes a variable-length integer over 64-bit groups, lowest
    /// digit first.
    fn write_vu64_le(&mut self, num: u128) -> (r: Result<(), DhError>)
        ensures
            write_post(
                old(self).sm(),
                crate::variable::vux_bytes(8, num as nat, false, false),
                final(self).sm(),
                r,
            ),
    {
        crate::variable::write_varint(self, 8, num, false, false)
    }

    /// Writes a variable-length integer over 64-bit groups, lowest
    /// digit first, groups in big-endian byte order.
    fn write_vu64_be(&mut self, num: u128) -> (r: Result<(), DhError>)
        ensures
            write_post(
                old(self).sm(),
                crate::variable::vux_bytes(8, num as nat, true, false),
                final(self).sm(),
                r,
            ),
    {
        crate::variable::write_varint(self, 8, num, true, false)
    }

    /// Writes a variable-length integer over 128-bit groups, lowest
    /// digit first.
    fn write_vu128_le(&mut self, num: u128) -> (r: Result<(), DhError>)
        ensures
            write_post(
                old(self).sm(),
                crate::variable::vux_bytes(16, num as nat, false, false),
                final(self).sm(),
                r,
            ),
    {
        crate::variable::write_varint(self, 16, num, false, false)
    }

    /// Writes a variable-length integer over 128-bit groups, lowest
    /// digit first, groups in big-endian byte order.
    fn write_vu128_be(&mut self, num: u128) -> (r: Result<(), DhError>)
        ensures
            write_post(
                old(self).sm(),
                crate::variable::vux_bytes(16, num as nat, true, false),
                final(self).sm(),
                r,
            ),
    {
        crate::variable::write_varint(self, 16, num, true, false)
    }

    /// Writes an unsigned 16-bit integer in the chosen byte order.
    fn write_u16(&mut self, endianess: crate::types::Endianess, num: u16) -> (r: Result<
        (),
        DhError,
    >)
        ensures
            ({
                match endianess {
                    crate::types::Endianess::Little => write_post(
                        old(self).sm(),
                        le_bytes(2, num as nat),
                        final(self).sm(),
                        r,
                    ),
                    crate::types::Endianess::Big => write_post(
                        old(self).sm(),
                        be_bytes(2, num as nat),
                        final(self).sm(),
                        r,
                    ),
                    crate::types::Endianess::Native => write_post(
                        old(self).sm(),
                        le_bytes(2, num as nat),
                        final(self).sm(),
                        r,
                    ) || write_post(old(self).sm(), be_bytes(2, num as nat), final(self).sm(), r),
                }
            }),
    {
        match endianess {
            crate::types::Endianess::Little => self.write_u16le(num),
            crate::types::Endianess::Big => self.write_u16be(num),
            crate::types::Endianess::Native => self.write_u16_ne(num),
        }
    }

    /// Writes an unsigned 32-bit integer in the chosen byte order.
    fn write_u32(&mut self, endianess: crate::types::Endianess, num: u32) -> (r: Result<
        (),
        DhError,
    >)
        ensures
            ({
                match endianess {
                    crate::types::Endianess::Little => write_post(
                        old(self).sm(),
                        le_bytes(4, num as nat),
                        final(self).sm(),
                        r,
                    ),
                    crate::types::Endianess::Big => write_post(
                        old(self).sm(),
                        be_bytes(4, num as nat),
                        final(self).sm(),
                        r,
                    ),
                    crate::types::Endianess::Native => write_post(
                        old(self).sm(),
                        le_bytes(4, num as nat),
                        final(self).sm(),
                        r,
                    ) || write_post(old(self).sm(), be_bytes(4, num as nat), final(self).sm(), r),
                }
            }),
    {
        match endianess {
            crate::types::Endianess::Little => self.write_u32le(num),
            crate::types::Endianess::Big => self.write_u32be(num),
            crate::types::Endianess::Native => self.write_u32_ne(num),
        }
    }

    /// Writes an unsigned 64-bit integer in the chosen byte order.
    fn write_u64(&mut self, endianess: crate::types::Endianess, num: u64) -> (r: Result<
        (),
        DhError,
    >)
        ensures
            ({
                match endianess {
                    crate::types::Endianess::Little => write_post(
                        old(self).sm(),
                        le_bytes(8, num as nat),
                        final(self).sm(),
                        r,
                    ),
                    crate::types::Endianess::Big => write_post(
                        old(self).sm(),
                        be_bytes(8, num as nat),
                        final(self).sm(),
                        r,
                    ),
                    crate::types::Endianess::Native => write_post(
                        old(self).sm(),
                        le_bytes(8, num as nat),
                        final(self).sm(),
                        r,
                    ) || write_post(old(self).sm(), be_bytes(8, num as nat), final(self).sm(), r),
                }
            }),
    {
        match endianess {
            crate::types::Endianess::Little => self.write_u64le(num),
            crate::types::Endianess::Big => self.write_u64be(num),
            crate::types::Endianess::Native => self.write_u64_ne(num),
        }
    }

    /// Writes an unsigned 128-bit integer in the chosen byte order.
    fn write_u128(&mut self, endianess: crate::types::Endianess, num: u128) -> (r: Result<
        (),
        DhError,
    >)
        ensures
            ({
                match endianess {
                    crate::types::Endianess::Little => write_post(
                        old(self).sm(),
                        le_bytes(16, num as nat),
                        final(self).sm(),
                        r,
                    ),
                    crate::types::Endianess::Big => write_post(
                        old(self).sm(),
                        be_bytes(16, num as nat),
                        final(self).sm(),
                        r,
                    ),
                    crate::types::Endianess::Native => write_post(
                        old(self).sm(),
                        le_bytes(16, num as nat),
                        final(self).sm(),
                        r,
                    ) || write_post(old(self).sm(), be_bytes(16, num as nat), final(self).sm(), r),
                }
            }),
    {
        match endianess {
            crate::types::Endianess::Little => self.write_u128le(num),
            crate::types::Endianess::Big => self.write_u128be(num),
            crate::types::Endianess::Native => self.write_u128_ne(num),
        }
    }

    /// Writes a signed 16-bit integer in the chosen byte order.
    fn write_i16(&mut self, endianess: crate::types::Endianess, num: i16) -> (r: Result<
        (),
        DhError,
    >)
        ensures
            ({
                let pat = crate::num::sign_encode(num as int, 16);
                match endianess {
                    crate::types::Endianess::Little => write_post(
                        old(self).sm(),
                        le_bytes(2, pat),
                        final(self).sm(),
                        r,
                    ),
                    crate::types::Endianess::Big => write_post(
                        old(self).sm(),
                        be_bytes(2, pat),
                        final(self).sm(),
                        r,
                    ),
                    crate::types::Endianess::Native => write_post(
                        old(self).sm(),
                        le_bytes(2, pat),
                        final(self).sm(),
                        r,
                    ) || write_post(old(self).sm(), be_bytes(2, pat), final(self).sm(), r),
                }
            }),
    {
        match endianess {
            crate::types::Endianess::Little => self.write_i16le(num),
            crate::types::Endianess::Big => self.write_i16be(num),
            crate::types::Endianess::Native => {
                proof {
                    crate::num::lemma_sign_encode_bound(num as int, 16);
                    crate::num::lemma_p2_128();
                }
                let pat = crate::signed::sign_mask(num as i128, 16);
                self.write_u16_ne(pat as u16)
            },
        }
    }

    /// Writes a signed 32-bit integer in the chosen byte order.
    fn write_i32(&mut self, endianess: crate::types::Endianess, num: i32) -> (r: Result<
        (),
        DhError,
    >)
        ensures
            ({
                let pat = crate::num::sign_encode(num as int, 32);
                match endianess {
                    crate::types::Endianess::Little => write_post(
                        old(self).sm(),
                        le_bytes(4, pat),
                        final(self).sm(),
                        r,
                    ),
                    crate::types::Endianess::Big => write_post(
                        old(self).sm(),
                        be_bytes(4, pat),
                        final(self).sm(),
                        r,
                    ),
                    crate::types::Endianess::Native => write_post(
                        old(self).sm(),
                        le_bytes(4, pat),
                        final(self).sm(),
                        r,
                    ) || write_post(old(self).sm(), be_bytes(4, pat), final(self).sm(), r),
                }
            }),
    {
        match endianess {
            crate::types::Endianess::Little => self.write_i32le(num),
            crate::types::Endianess::Big => self.write_i32be(num),
            crate::types::Endianess::Native => {
                proof {
                    crate::num::lemma_sign_encode_bound(num as int, 32);
                    crate::num::lemma_p2_128();
                }
                let pat = crate::signed::sign_mask(num as i128, 32);
                self.write_u32_ne(pat as u32)
            },
        }
    }

    /// Writes a signed 64-bit integer in the chosen byte order.
    fn write_i64(&mut self, endianess: crate::types::Endianess, num: i64) -> (r: Result<
        (),
        DhError,
    >)
        ensures
            ({
                let pat = crate::num::sign_encode(num as int, 64);
                match endianess {
                    crate::types::Endianess::Little => write_post(
                        old(self).sm(),
                        le_bytes(8, pat),
                        final(self).sm(),
                        r,
                    ),
                    crate::types::Endianess::Big => write_post(
                        old(self).sm(),
                        be_bytes(8, pat),
                        final(self).sm(),
                        r,
                    ),
                    crate::types::Endianess::Native => write_post(
                        old(self).sm(),
                        le_bytes(8, pat),
                        final(self).sm(),
                        r,
                    ) || write_post(old(self).sm(), be_bytes(8, pat), final(self).sm(), r),
                }
            }),
    {
        match endianess {
            crate::types::Endianess::Little => self.write_i64le(num),
            crate::types::Endianess::Big => self.write_i64be(num),
            crate::types::Endianess::Native => {
                proof {
                    crate::num::lemma_sign_encode_bound(num as int, 64);
                    crate::num::lemma_p2_128();
                }
                let pat = crate::signed::sign_mask(num as i128, 64);
                self.write_u64_ne(pat as u64)
            },
        }
    }

    /// Writes a signed 128-bit integer in the chosen byte order.
    fn write_i128(&mut self, endianess: crate::types::Endianess, num: i128) -> (r: Result<
        (),
        DhError,
    >)
        ensures
            ({
                let pat = crate::num::sign_encode(num as int, 128);
                match endianess {
                    crate::types::Endianess::Little => write_post(
                        old(self).sm(),
                        le_bytes(16, pat),
                        final(self).sm(),
                        r,
                    ),
                    crate::types::Endianess::Big => write_post(
                        old(self).sm(),
                        be_bytes(16, pat),
                        final(self).sm(),
                        r,
                    ),
                    crate::types::Endianess::Native => write_post(
                        old(self).sm(),
                        le_bytes(16, pat),
                        final(self).sm(),
                        r,
                    ) || write_post(old(self).sm(), be_bytes(16, pat), final(self).sm(), r),
                }
            }),
    {
        match endianess {
            crate::types::Endianess::Little => self.write_i128le(num),
            crate::types::Endianess::Big => self.write_i128be(num),
            crate::types::Endianess::Native => {
                proof {
                    crate::num::lemma_sign_encode_bound(num as int, 128);
                    crate::num::lemma_p2_128();
                }
                let pat = crate::signed::sign_mask(num as i128, 128);
                self.write_u128_ne(pat)
            },
        }
    }

    /// Writes `s` as UTF-8 text.
    fn write_utf8(&mut self, s: &String) -> (r: Result<(), DhError>)
        ensures
            write_post(old(self).sm(), vstd::utf8::encode_utf8(s@), final(self).sm(), r),
    {
        self.write_bytes(s.as_str().as_bytes())
    }

    /// Writes all of `buf` at position `pos`, returning to the prior position afterwards.
    fn write_bytes_at(&mut self, pos: u64, buf: &[u8]) -> (r: Result<(), DhError>)
        ensures
            ({
            let m = old(self).sm();
            let mt = m.with_pos(m.origin() + pos);
            let at_ok = m.seek_ok(m.pos) && m.seek_ok(m.origin() + pos);
            let data = buf@;
            &&& !at_ok ==> final(self).sm() == m && r == Err::<(), DhError>(m.seek_err())
            &&& at_ok ==> (if mt.write_ok(data.len()) {
                final(self).sm() == mt.after_write(data).with_pos(m.pos) && r == Ok::<
                    (),
                    DhError,
                >(())
            } else {
                final(self).sm() == m && r == Err::<(), DhError>(mt.write_err(data.len()))
            })
            }),
    {
        let before = match self.pos() {
            Ok(p) => p,
            Err(e) => {
                return Err(e);
            },
        };
        if let Err(e) = self.to(pos) {
            return Err(e);
        }
        let result = self.write_bytes(buf);
        if let Err(e) = self.to(before) {
            return Err(e);
        }
        result
    }

    /// Writes `s` as UTF-8 text at position `pos`, returning to the prior position afterwards.
    fn write_utf8_at(&mut self, pos: u64, s: &String) -> (r: Result<(), DhError>)
        ensures
            ({
            let m = old(self).sm();
            let mt = m.with_pos(m.origin() + pos);
            let at_ok = m.seek_ok(m.pos) && m.seek_ok(m.origin() + pos);
            let data = vstd::utf8::encode_utf8(s@);
            &&& !at_ok ==> final(self).sm() == m && r == Err::<(), DhError>(m.seek_err())
            &&& at_ok ==> (if mt.write_ok(data.len()) {
                final(self).sm() == mt.after_write(data).with_pos(m.pos) && r == Ok::<
                    (),
                    DhError,
                >(())
            } else {
                final(self).sm() == m && r == Err::<(), DhError>(mt.write_err(data.len()))
            })
            }),
    {
        let before = match self.pos() {
            Ok(p) => p,
            Err(e) => {
                return Err(e);
            },
        };
        if let Err(e) = self.to(pos) {
            return Err(e);
        }
        let result = self.write_utf8(s);
        if let Err(e) = self.to(before) {
            return Err(e);
        }
        result
    }

    /// Writes an unsigned 8-bit integer at position `pos`, returning to the prior position afterwards.
    fn write_u8_at(&mut self, pos: u64, num: u8) -> (r: Result<(), DhError>)
        ensures
            ({
            let m = old(self).sm();
            let mt = m.with_pos(m.origin() + pos);
            let at_ok = m.seek_ok(m.pos) && m.seek_ok(m.origin() + pos);
            let data = le_bytes(1, num as nat);
            &&& !at_ok ==> final(self).sm() == m && r == Err::<(), DhError>(m.seek_err())
            &&& at_ok ==> (if mt.write_ok(data.len()) {
                final(self).sm() == mt.after_write(data).with_pos(m.pos) && r == Ok::<
                    (),
                    DhError,
                >(())
            } else {
                final(self).sm() == m && r == Err::<(), DhError>(mt.write_err(data.len()))
            })
            }),
    {
        let before = match self.pos() {
            Ok(p) => p,
            Err(e) => {
                return Err(e);
            },
        };
        if let Err(e) = self.to(pos) {
            return Err(e);
        }
        let result = self.write_u8(num);
        if let Err(e) = self.to(before) {
            return Err(e);
        }
        result
    }

    /// Writes an unsigned 16-bit integer at position `pos`, returning to the prior position afterwards.
    fn write_u16le_at(&mut self, pos: u64, num: u16) -> (r: Result<(), DhError>)
        ensures
            ({
            let m = old(self).sm();
            let mt = m.with_pos(m.origin() + pos);
            let at_ok = m.seek_ok(m.pos) && m.seek_ok(m.origin() + pos);
            let data = le_bytes(2, num as nat);
            &&& !at_ok ==> final(self).sm() == m && r == Err::<(), DhError>(m.seek_err())
            &&& at_ok ==> (if mt.write_ok(data.len()) {
                final(self).sm() == mt.after_write(data).with_pos(m.pos) && r == Ok::<
                    (),
                    DhError,
                >(())
            } else {
                final(self).sm() == m && r == Err::<(), DhError>(mt.write_err(data.len()))
            })
            }),
    {
        let before = match self.pos() {
            Ok(p) => p,
            Err(e) => {
                return Err(e);
            },
        };
        if let Err(e) = self.to(pos) {
            return Err(e);
        }
        let result = self.write_u16le(num);
        if let Err(e) = self.to(before) {
            return Err(e);
        }
        result
    }

    /// Writes an unsigned 16-bit integer at position `pos`, returning to the prior position afterwards.
    fn write_u16be_at(&mut self, pos: u64, num: u16) -> (r: Result<(), DhError>)
        ensures
            ({
            let m = old(self).sm();
            let mt = m.with_pos(m.origin() + pos);
            let at_ok = m.seek_ok(m.pos) && m.seek_ok(m.origin() + pos);
            let data = be_bytes(2, num as nat);
            &&& !at_ok ==> final(self).sm() == m && r == Err::<(), DhError>(m.seek_err())
            &&& at_ok ==> (if mt.write_ok(data.len()) {
                final(self).sm() == mt.after_write(data).with_pos(m.pos) && r == Ok::<
                    (),
                    DhError,
                >(())
            } else {
                final(self).sm() == m && r == Err::<(), DhError>(mt.write_err(data.len()))
            })
            }),
    {
        let before = match self.pos() {
            Ok(p) => p,
            Err(e) => {
                return Err(e);
            },
        };
        if let Err(e) = self.to(pos) {
            return Err(e);
        }
        let result = self.write_u16be(num);
        if let Err(e) = self.to(before) {
            return Err(e);
        }
        result
    }

    /// Writes an unsigned 32-bit integer at position `pos`, returning to the prior position afterwards.
    fn write_u32le_at(&mut self, pos: u64, num: u32) -> (r: Result<(), DhError>)
        ensures
            ({
            let m = old(self).sm();
            let mt = m.with_pos(m.origin() + pos);
            let at_ok = m.seek_ok(m.pos) && m.seek_ok(m.origin() + pos);
            let data = le_bytes(4, num as nat);
            &&& !at_ok ==> final(self).sm() == m && r == Err::<(), DhError>(m.seek_err())
            &&& at_ok ==> (if mt.write_ok(data.len()) {
                final(self).sm() == mt.after_write(data).with_pos(m.pos) && r == Ok::<
                    (),
                    DhError,
                >(())
            } else {
                final(self).sm() == m && r == Err::<(), DhError>(mt.write_err(data.len()))
            })
            }),
    {
        let before = match self.pos() {
            Ok(p) => p,
            Err(e) => {
                return Err(e);
            },
        };
        if let Err(e) = self.to(pos) {
            return Err(e);
        }
        let result = self.write_u32le(num);
        if let Err(e) = self.to(before) {
            return Err(e);
        }
        result
    }

    /// Writes an unsigned 32-bit integer at position `pos`, returning to the prior position afterwards.
    fn write_u32be_at(&mut self, pos: u64, num: u32) -> (r: Result<(), DhError>)
        ensures
            ({
            let m = old(self).sm();
            let mt = m.with_pos(m.origin() + pos);
            let at_ok = m.seek_ok(m.pos) && m.seek_ok(m.origin() + pos);
            let data = be_bytes(4, num as nat);
            &&& !at_ok ==> final(self).sm() == m && r == Err::<(), DhError>(m.seek_err())
            &&& at_ok ==> (if mt.write_ok(data.len()) {
                final(self).sm() == mt.after_write(data).with_pos(m.pos) && r == Ok::<
                    (),
                    DhError,
                >(())
            } else {
                final(self).sm() == m && r == Err::<(), DhError>(mt.write_err(data.len()))
            })
            }),
    {
        let before = match self.pos() {
            Ok(p) => p,
            Err(e) => {
                return Err(e);
            },
        };
        if let Err(e) = self.to(pos) {
            return Err(e);
        }
        let result = self.write_u32be(num);
        if let Err(e) = self.to(before) {
            return Err(e);
        }
        result
    }

    /// Writes an unsigned 64-bit integer at position `pos`, returning to the prior position afterwards.
    fn write_u64le_at(&mut self, pos: u64, num: u64) -> (r: Result<(), DhError>)
        ensures
            ({
            let m = old(self).sm();
            let mt = m.with_pos(m.origin() + pos);
            let at_ok = m.seek_ok(m.pos) && m.seek_ok(m.origin() + pos);
            let data = le_bytes(8, num as nat);
            &&& !at_ok ==> final(self).sm() == m && r == Err::<(), DhError>(m.seek_err())
            &&& at_ok ==> (if mt.write_ok(data.len()) {
                final(self).sm() == mt.after_write(data).with_pos(m.pos) && r == Ok::<
                    (),
                    DhError,
                >(())
            } else {
                final(self).sm() == m && r == Err::<(), DhError>(mt.write_err(data.len()))
            })
            }),
    {
        let before = match self.pos() {
            Ok(p) => p,
            Err(e) => {
                return Err(e);
            },
        };
        if let Err(e) = self.to(pos) {
            return Err(e);
        }
        let result = self.write_u64le(num);
        if let Err(e) = self.to(before) {
            return Err(e);
        }
        result
    }

    /// Writes an unsigned 64-bit integer at position `pos`, returning to the prior position afterwards.
    fn write_u64be_at(&mut self, pos: u64, num: u64) -> (r: Result<(), DhError>)
        ensures
            ({
            let m = old(self).sm();
            let mt = m.with_pos(m.origin() + pos);
            let at_ok = m.seek_ok(m.pos) && m.seek_ok(m.origin() + pos);
            let data = be_bytes(8, num as nat);
            &&& !at_ok ==> final(self).sm() == m && r == Err::<(), DhError>(m.seek_err())
            &&& at_ok ==> (if mt.write_ok(data.len()) {
                final(self).sm() == mt.after_write(data).with_pos(m.pos) && r == Ok::<
                    (),
                    DhError,
                >(())
            } else {
                final(self).sm() == m && r == Err::<(), DhError>(mt.write_err(data.len()))
            })
            }),
    {
        let before = match self.pos() {
            Ok(p) => p,
            Err(e) => {
                return Err(e);
            },
        };
        if let Err(e) = self.to(pos) {
            return Err(e);
        }
        let result = self.write_u64be(num);
        if let Err(e) = self.to(before) {
            return Err(e);
        }
        result
    }

    /// Writes an unsigned 128-bit integer at position `pos`, returning to the prior position afterwards.
    fn write_u128le_at(&mut self, pos: u64, num: u128) -> (r: Result<(), DhError>)
        ensures
            ({
            let m = old(self).sm();
            let mt = m.with_pos(m.origin() + pos);
            let at_ok = m.seek_ok(m.pos) && m.seek_ok(m.origin() + pos);
            let data = le_bytes(16, num as nat);
            &&& !at_ok ==> final(self).sm() == m && r == Err::<(), DhError>(m.seek_err())
            &&& at_ok ==> (if mt.write_ok(data.len()) {
                final(self).sm() == mt.after_write(data).with_pos(m.pos) && r == Ok::<
                    (),
                    DhError,
                >(())
            } else {
                final(self).sm() == m && r == Err::<(), DhError>(mt.write_err(data.len()))
            })
            }),
    {
        let before = match self.pos() {
            Ok(p) => p,
            Err(e) => {
                return Err(e);
            },
        };
        if let Err(e) = self.to(pos) {
            return Err(e);
        }
        let result = self.write_u128le(num);
        if let Err(e) = self.to(before) {
            return Err(e);
        }
        result
    }

    /// Writes an unsigned 128-bit integer at position `pos`, returning to the prior position afterwards.
    fn write_u128be_at(&mut self, pos: u64, num: u128) -> (r: Result<(), DhError>)
        ensures
            ({
            let m = old(self).sm();
            let mt = m.with_pos(m.origin() + pos);
            let at_ok = m.seek_ok(m.pos) && m.seek_ok(m.origin() + pos);
            let data = be_bytes(16, num as nat);
            &&& !at_ok ==> final(self).sm() == m && r == Err::<(), DhError>(m.seek_err())
            &&& at_ok ==> (if mt.write_ok(data.len()) {
                final(self).sm() == mt.after_write(data).with_pos(m.pos) && r == Ok::<
                    (),
                    DhError,
                >(())
            } else {
                final(self).sm() == m && r == Err::<(), DhError>(mt.write_err(data.len()))
            })
            }),
    {
        let before = match self.pos() {
            Ok(p) => p,
            Err(e) => {
                return Err(e);
            },
        };
        if let Err(e) = self.to(pos) {
            return Err(e);
        }
        let result = self.write_u128be(num);
        if let Err(e) = self.to(before) {
            return Err(e);
        }
        result
    }

    /// Writes an unsigned variable-length integer at position `pos`, returning to the prior position afterwards.
    fn write_vuxle_at(&mut self, pos: u64, size: u8, num: u128) -> (r: Result<(), DhError>)
        requires
            1 <= size <= 16,
        ensures
            ({
            let m = old(self).sm();
            let mt = m.with_pos(m.origin() + pos);
            let at_ok = m.seek_ok(m.pos) && m.seek_ok(m.origin() + pos);
            let data = crate::variable::vux_bytes(size as nat, num as nat, false, false);
            &&& !at_ok ==> final(self).sm() == m && r == Err::<(), DhError>(m.seek_err())
            &&& at_ok ==> (if mt.write_ok(data.len()) {
                final(self).sm() == mt.after_write(data).with_pos(m.pos) && r == Ok::<
                    (),
                    DhError,
                >(())
            } else {
                final(self).sm() == m && r == Err::<(), DhError>(mt.write_err(data.len()))
            })
            }),
    {
        let before = match self.pos() {
            Ok(p) => p,
            Err(e) => {
                return Err(e);
            },
        };
        if let Err(e) = self.to(pos) {
            return Err(e);
        }
        let result = self.write_vuxle(size, num);
        if let Err(e) = self.to(before) {
            return Err(e);
        }
        result
    }

    /// Writes an unsigned variable-length integer at position `pos`, returning to the prior position afterwards.
    fn write_vuxbe_at(&mut self, pos: u64, size: u8, num: u128) -> (r: Result<(), DhError>)
        requires
            1 <= size <= 16,
        ensures
            ({
            let m = old(self).sm();
            let mt = m.with_pos(m.origin() + pos);
            let at_ok = m.seek_ok(m.pos) && m.seek_ok(m.origin() + pos);
            let data = crate::variable::vux_bytes(size as nat, num as nat, true, false);
            &&& !at_ok ==> final(self).sm() == m && r == Err::<(), DhError>(m.seek_err())
            &&& at_ok ==> (if mt.write_ok(data.len()) {
                final(self).sm() == mt.after_write(data).with_pos(m.pos) && r == Ok::<
                    (),
                    DhError,
                >(())
            } else {
                final(self).sm() == m && r == Err::<(), DhError>(mt.write_err(data.len()))
            })
            }),
    {
        let before = match self.pos() {
            Ok(p) => p,
            Err(e) => {
                return Err(e);
            },
        };
        if let Err(e) = self.to(pos) {
            return Err(e);
        }
        let result = self.write_vuxbe(size, num);
        if let Err(e) = self.to(before) {
            return Err(e);
        }
        result
    }

    /// Writes an unsigned variable-length integer at position `pos`, returning to the prior position afterwards.
    fn write_vuxler_at(&mut self, pos: u64, size: u8, num: u128) -> (r: Result<(), DhError>)
        requires
            1 <= size <= 16,
        ensures
            ({
            let m = old(self).sm();
            let mt = m.with_pos(m.origin() + pos);
            let at_ok = m.seek_ok(m.pos) && m.seek_ok(m.origin() + pos);
            let data = crate::variable::vux_bytes(size as nat, num as nat, false, true);
            &&& !at_ok ==> final(self).sm() == m && r == Err::<(), DhError>(m.seek_err())
            &&& at_ok ==> (if mt.write_ok(data.len()) {
                final(self).sm() == mt.after_write(data).with_pos(m.pos) && r == Ok::<
                    (),
                    DhError,
                >(())
            } else {
                final(self).sm() == m && r == Err::<(), DhError>(mt.write_err(data.len()))
            })
            }),
    {
        let before = match self.pos() {
            Ok(p) => p,
            Err(e) => {
                return Err(e);
            },
        };
        if let Err(e) = self.to(pos) {
            return Err(e);
        }
        let result = self.write_vuxler(size, num);
        if let Err(e) = self.to(before) {
            return Err(e);
        }
        result
    }

    /// Writes an unsigned variable-length integer at position `pos`, returning to the prior position afterwards.
    fn write_vuxber_at(&mut self, pos: u64, size: u8, num: u128) -> (r: Result<(), DhError>)
        requires
            1 <= size <= 16,
        ensures
            ({
            let m = old(self).sm();
            let mt = m.with_pos(m.origin() + pos);
            let at_ok = m.seek_ok(m.pos) && m.seek_ok(m.origin() + pos);
            let data = crate::variable::vux_bytes(size as nat, num as nat, true, true);
            &&& !at_ok ==> final(self).sm() == m && r == Err::<(), DhError>(m.seek_err())
            &&& at_ok ==> (if mt.write_ok(data.len()) {
                final(self).sm() == mt.after_write(data).with_pos(m.pos) && r == Ok::<
                    (),
                    DhError,
                >(())
            } else {
                final(self).sm() == m && r == Err::<(), DhError>(mt.write_err(data.len()))
            })
            }),
    {
        let before = match self.pos() {
            Ok(p) => p,
            Err(e) => {
                return Err(e);
            },
        };
        if let Err(e) = self.to(pos) {
            return Err(e);
        }
        let result = self.write_vuxber(size, num);
        if let Err(e) = self.to(before) {
            return Err(e);
        }
        result
    }

    /// Writes an unsigned 16-bit integer in the machine's byte order:
    /// the little- or the big-endian layout, whichever the target uses.
    fn write_u16_ne(&mut self, num: u16) -> (r: Result<(), DhError>)
        ensures
            write_post(old(self).sm(), le_bytes(2, num as nat), final(self).sm(), r) || write_post(
                old(self).sm(),
                be_bytes(2, num as nat),
                final(self).sm(),
                r,
            ),
    {
        let buf = u16_to_ne(num);
        self.write_bytes(buf.as_slice())
    }

    /// Writes an unsigned 32-bit integer in the machine's byte order:
    /// the little- or the big-endian layout, whichever the target uses.
    fn write_u32_ne(&mut self, num: u32) -> (r: Result<(), DhError>)
        ensures
            write_post(old(self).sm(), le_bytes(4, num as nat), final(self).sm(), r) || write_post(
                old(self).sm(),
                be_bytes(4, num as nat),
                final(self).sm(),
                r,
            ),
    {
        let buf = u32_to_ne(num);
        self.write_bytes(buf.as_slice())
    }

    /// Writes an unsigned 64-bit integer in the machine's byte order:
    /// the little- or the big-endian layout, whichever the target uses.
    fn write_u64_ne(&mut self, num: u64) -> (r: Result<(), DhError>)
        ensures
            write_post(old(self).sm(), le_bytes(8, num as nat), final(self).sm(), r) || write_post(
                old(self).sm(),
                be_bytes(8, num as nat),
                final(self).sm(),
                r,
            ),
    {
        let buf = u64_to_ne(num);
        self.write_bytes(buf.as_slice())
    }

    /// Writes an unsigned 128-bit integer in the machine's byte order:
    /// the little- or the big-endian layout, whichever the target uses.
    fn write_u128_ne(&mut self, num: u128) -> (r: Result<(), DhError>)
        ensures
            write_post(old(self).sm(), le_bytes(16, num as nat), final(self).sm(), r) || write_post(
                old(self).sm(),
                be_bytes(16, num as nat),
                final(self).sm(),
                r,
            ),
    {
        let buf = u128_to_ne(num);
        self.write_bytes(buf.as_slice())
    }
}

/// A writable root stream: it can be confined to a window, grow its
/// backing store, lock its source, and close, handing the source back.
pub trait Writable<'a>: WriteVal + crate::limited::RootStream {
    /// What closing returns to the caller.
    spec fn closed_desc(self) -> crate::types::ClosedData;

    /// Resizes the backing store to exactly `len` bytes.
    fn allocate(&mut self, len: u64) -> (r: Result<(), DhError>)
        ensures
            alloc_post(old(self).sm(), len as nat, final(self).sm(), r),
    ;

    /// Flushes buffered data; a no-op for in-memory targets.
    fn flush(&mut self) -> (r: Result<(), DhError>)
        ensures
            final(self).sm() == old(self).sm(),
            r == Ok::<(), DhError>(()),
    ;

    /// Locks the target exclusively; a no-op for in-memory targets.
    fn lock(&mut self, block: bool) -> (r: Result<(), DhError>)
        ensures
            final(self).sm() == old(self).sm(),
            r == Ok::<(), DhError>(()),
    ;

    /// Unlocks the target; a no-op for in-memory targets.
    fn unlock(&mut self) -> (r: Result<(), DhError>)
        ensures
            final(self).sm() == old(self).sm(),
            r == Ok::<(), DhError>(()),
    ;

    /// Closes the writer and hands back the target it was built over.
    fn close(self) -> (r: Result<Option<DataType<'a>>, DhError>)
        ensures
            r matches Ok(d) && crate::types::closed_desc_of(d) == self.closed_desc(),
    ;

    /// Confines the writer to the window `[pos, pos + length]` and moves it
    /// to the window's start.
    fn limit<'b>(&'b mut self, pos: u64, length: u64) -> (r: Result<
        crate::limited::WLimited<'b, Self>,
        DhError,
    >)
        requires
            pos + length <= u64::MAX,
        ensures
            r matches Ok(v) && v.sm() == crate::limited::limited_model(
                old(self).sm().with_pos(pos as int),
                pos as int,
                pos + length,
            ),
    {
        crate::limited::limit_w(self, pos, length)
    }
}



/// Relies on `u16::to_ne_bytes`: it lays the value out in machine order,
/// which is the little- or the big-endian layout depending on the target.
#[verifier::external_body]
fn u16_to_ne(num: u16) -> (r: Vec<u8>)
    ensures
        r@ == le_bytes(2, num as nat) || r@ == be_bytes(2, num as nat),
{
    num.to_ne_bytes().to_vec()
}

/// Relies on `u32::to_ne_bytes`: it lays the value out in machine order,
/// which is the little- or the big-endian layout depending on the target.
#[verifier::external_body]
fn u32_to_ne(num: u32) -> (r: Vec<u8>)
    ensures
        r@ == le_bytes(4, num as nat) || r@ == be_bytes(4, num as nat),
{
    num.to_ne_bytes().to_vec()
}

/// Relies on `u64::to_ne_bytes`: it lays the value out in machine order,
/// which is the little- or the big-endian layout depending on the target.
#[verifier::external_body]
fn u64_to_ne(num: u64) -> (r: Vec<u8>)
    ensures
        r@ == le_bytes(8, num as nat) || r@ == be_bytes(8, num as nat),
{
    num.to_ne_bytes().to_vec()
}

/// Relies on `u128::to_ne_bytes`: it lays the value out in machine order,
/// which is the little- or the big-endian layout depending on the target.
#[verifier::external_body]
fn u128_to_ne(num: u128) -> (r: Vec<u8>)
    ensures
        r@ == le_bytes(16, num as nat) || r@ == be_bytes(16, num as nat),
{
    num.to_ne_bytes().to_vec()
}

} // verus!
