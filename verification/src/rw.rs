use crate::error::DhError;
use crate::read::Readable;
use crate::types::DataType;
use crate::write::Writable;
use vstd::prelude::*;

verus! {

/// A stream that is both readable and writable.  `rw_close` avoids the
/// naming conflict between the two parents' `close`.
pub trait Rw<'a>: Readable<'a> + Writable<'a> {
    /// What closing returns to the caller.
    spec fn rw_closed_desc(self) -> crate::types::ClosedData;

    /// Closes the stream and hands back the source it was built over.
    fn rw_close(self) -> (r: Result<Option<DataType<'a>>, DhError>)
        ensures
            r matches Ok(d) && crate::types::closed_desc_of(d) == self.rw_closed_desc(),
    ;

    /// Confines the stream to the window `[start, start + length]` for both
    /// reading and writing, and moves it to the window's start.
    fn rw_limit<'b>(&'b mut self, start: u64, length: u64) -> (r: Result<
        crate::limited::RwLimited<'b, Self>,
        DhError,
    >)
        requires
            start + length <= u64::MAX,
        ensures
            r matches Ok(v) && crate::seek::Seekable::sm(&v) == crate::limited::limited_model(
                old(self).sm().with_pos(start as int),
                start as int,
                start + length,
            ),
    {
        crate::limited::limit_rw(self, start, length)
    }
}

} // verus!
