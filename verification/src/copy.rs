use crate::error::DhError;
use crate::read::ReadSeek;
use crate::seek::StreamModel;
use crate::write::WriteSeek;
use vstd::prelude::*;

verus! {

/// A shorter write is admissible wherever a longer one is.
pub proof fn lemma_write_ok_mono(m: StreamModel, k: nat, n: nat)
    requires
        k <= n,
        m.write_ok(n),
    ensures
        m.write_ok(k),
{
}

/// Laying down two blocks in turn is laying down their concatenation.
pub proof fn lemma_after_write_append(m: StreamModel, a: Seq<u8>, b: Seq<u8>)
    requires
        m.write_ok(a.len() + b.len()),
    ensures
        m.write_ok(a.len()),
        m.after_write(a).write_ok(b.len()),
        m.after_write(a).after_write(b) == m.after_write(a + b),
{
    let m1 = m.after_write(a);
    assert(m1.bytes.len() == if m.pos + a.len() > m.bytes.len() {
        m.pos + a.len()
    } else {
        m.bytes.len() as int
    });
    assert(m1.after_write(b).bytes =~= m.after_write(a + b).bytes);
    assert(m1.after_write(b) == m.after_write(a + b));
}

/// What a stream-to-stream copy does: with the whole range readable and
/// writable the bytes move and both positions advance; otherwise an error
/// is reported, with both frames intact and the source never moved back.
pub open spec fn copy_post(
    m: StreamModel,
    t: StreamModel,
    length: nat,
    m2: StreamModel,
    t2: StreamModel,
    r: Result<(), DhError>,
) -> bool {
    let ok = m.read_ok(length) && t.write_ok(length);
    &&& length == 0 ==> r == Ok::<(), DhError>(()) && m2 == m && t2 == t
    &&& length > 0 && ok ==> m2 == m.after_read(length) && t2 == t.after_write(
        m.read_result(length),
    ) && r == Ok::<(), DhError>(())
    &&& length > 0 && !ok ==> r is Err
    &&& m2.bytes == m.bytes
    &&& m2.same_frame(m)
    &&& m.pos <= m2.pos
    &&& t2.same_frame(t)
}

/// Copies `length` bytes from the current position of `source` to the
/// current position of `target`, at most `buffer_size` bytes at a time.
/// When the whole range is readable and writable, exactly those bytes
/// arrive and both positions advance past them; a failed step reports its
/// error with the source never moved backwards.
pub fn copy_streams<R: ReadSeek, W: WriteSeek>(
    source: &mut R,
    length: u64,
    target: &mut W,
    buffer_size: u64,
) -> (r: Result<(), DhError>)
    requires
        buffer_size >= 1,
    ensures
        copy_post(
            old(source).sm(),
            old(target).sm(),
            length as nat,
            final(source).sm(),
            final(target).sm(),
            r,
        ),
{
    let ghost m = old(source).sm();
    let ghost t = old(target).sm();
    let ghost all_ok = m.read_ok(length as nat) && t.write_ok(length as nat);
    let mut remaining = length;
    while remaining > 0
        invariant
            buffer_size >= 1,
            remaining <= length,
            m == old(source).sm(),
            t == old(target).sm(),
            all_ok == (m.read_ok(length as nat) && t.write_ok(length as nat)),
            source.sm().bytes == m.bytes,
            source.sm().same_frame(m),
            target.sm().same_frame(t),
            remaining == length ==> source.sm() == m && target.sm() == t,
            remaining < length ==> m.read_ok((length - remaining) as nat) && t.write_ok(
                (length - remaining) as nat,
            ) && source.sm() == m.after_read((length - remaining) as nat) && target.sm()
                == t.after_write(m.bytes.subrange(m.pos, m.pos + length - remaining)),
        decreases remaining,
    {
        let ghost done = (length - remaining) as nat;
        let ghost prefix = m.bytes.subrange(m.pos, m.pos + done);
        let chunk = if remaining < buffer_size {
            remaining
        } else {
            buffer_size
        };
        let buf = match source.read_bytes(chunk) {
            Ok(b) => b,
            Err(e) => {
                proof {
                    if all_ok {
                        assert(source.sm().read_ok(chunk as nat));
                    }
                }
                return Err(e);
            },
        };
        proof {
            assert(source.sm() == m.after_read((done + chunk) as nat));
            assert(m.read_ok((done + chunk) as nat));
            assert(buf@ =~= m.bytes.subrange(m.pos + done, m.pos + done + chunk));
            if all_ok {
                lemma_write_ok_mono(t, (done + chunk) as nat, length as nat);
                lemma_after_write_append(
                    t,
                    prefix,
                    m.bytes.subrange(m.pos + done, m.pos + done + chunk),
                );
            }
        }
        let ghost t_cur = target.sm();
        if let Err(e) = target.write_bytes(buf.as_slice()) {
            proof {
                if all_ok {
                    assert(t_cur.write_ok(chunk as nat));
                }
            }
            return Err(e);
        }
        proof {
            assert(t_cur.write_ok(buf@.len()));
            if done == 0 {
                assert(prefix =~= Seq::<u8>::empty());
                assert(t.spliced(prefix) =~= t.bytes);
                assert(t.after_write(prefix) == t);
            }
            assert(t_cur == t.after_write(prefix));
            assert(t.after_write(prefix).bytes.len() >= t.pos + done);
            assert(t.write_ok((done + chunk) as nat)) by {
                assert(t.after_write(prefix).write_ok(chunk as nat));
            }
            lemma_after_write_append(t, prefix, buf@);
            assert(prefix + buf@ =~= m.bytes.subrange(m.pos, m.pos + done + chunk));
        }
        remaining = remaining - chunk;
    }
    proof {
        if length > 0 {
            assert(m.bytes.subrange(m.pos, m.pos + length) =~= m.read_result(length as nat));
        }
    }
    Ok(())
}

} // verus!
