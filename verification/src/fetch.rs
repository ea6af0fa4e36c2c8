//! Per-chunk fetch bookkeeping: one value of [`ChunkFetch`] accompanies
//! one range request. The caller issues the HTTP request, feeds every
//! read of the response body to [`ChunkFetch::on_data`], and closes the
//! stream with [`ChunkFetch::finish`]; the per-range progress counter is
//! the number of bytes received so far.

use vstd::prelude::*;
use crate::error::FetchError;
use crate::planner::ByteRange;
use crate::text::decimal_chars;
use crate::text::u64_to_decimal;

verus! {

/// The payload of one completed chunk, tagged with the index of the
/// range it belongs to; the index, not the completion order, decides
/// where the payload lands in the output.
#[derive(Debug, Clone)]
pub struct ChunkResult {
    pub index: usize,
    pub bytes: Vec<u8>,
}

/// In-progress fetch of one byte range: the range's index, the byte
/// count a correct partial-content response must deliver, and the bytes
/// received so far.
#[derive(Debug)]
pub struct ChunkFetch {
    pub index: usize,
    pub expected: u64,
    pub buf: Vec<u8>,
}

impl ChunkFetch {
    /// Opens the bookkeeping for one planned range, with nothing
    /// received yet.
    pub fn begin(range: &ByteRange) -> (f: ChunkFetch)
        requires
            range.wf(),
        ensures
            f.index == range.index,
            f.expected == range.byte_len(),
            f.buf@ == Seq::<u8>::empty(),
    {
        ChunkFetch { index: range.index, expected: range.end - range.start + 1, buf: Vec::new() }
    }

    /// Records one read of the response body: the new bytes are appended
    /// to the chunk's buffer, so the progress counter never decreases.
    pub fn on_data(&mut self, data: &[u8])
        requires
            old(self).buf@.len() + data@.len() <= usize::MAX,
        ensures
            final(self).index == old(self).index,
            final(self).expected == old(self).expected,
            final(self).buf@ == old(self).buf@ + data@,
            final(self).buf@.len() >= old(self).buf@.len(),
    {
        let ghost before = self.buf@;
        let mut k: usize = 0;
        while k < data.len()
            invariant
                k <= data@.len(),
                before.len() + data@.len() <= usize::MAX,
                self.buf@ == before + data@.subrange(0, k as int),
                self.index == old(self).index,
                self.expected == old(self).expected,
            decreases data@.len() - k,
        {
            self.buf.push(data[k]);
            k = k + 1;
            proof {
                assert(self.buf@ =~= before + data@.subrange(0, k as int));
            }
        }
        proof {
            assert(self.buf@ =~= before + data@);
        }
    }

    /// Progress counter: the number of body bytes received so far.
    pub fn received(&self) -> (n: usize)
        ensures
            n == self.buf@.len(),
    {
        self.buf.len()
    }

    /// Closes the stream. The chunk is complete only when the body held
    /// exactly the planned range's bytes; a body of any other length
    /// means the server ignored the `Range` header (or truncated the
    /// response), and the chunk fails rather than corrupt the output.
    pub fn finish(self) -> (r: Result<ChunkResult, FetchError>)
        ensures
            self.buf@.len() == self.expected ==> (r matches Ok(c) && c.index == self.index
                && c.bytes@ == self.buf@),
            self.buf@.len() != self.expected ==> r == Err::<ChunkResult, FetchError>(
                FetchError::RangeNotHonored,
            ),
    {
        if self.buf.len() as u64 == self.expected {
            Ok(ChunkResult { index: self.index, bytes: self.buf })
        } else {
            Err(FetchError::RangeNotHonored)
        }
    }
}

/// Decides whether an HTTP status lets the chunk go ahead: a range
/// request is answered with 206 Partial Content; any other success
/// status means the server ignored the `Range` header; anything else is
/// an HTTP error carrying the status.
pub fn check_status(status: u16) -> (r: Result<(), FetchError>)
    ensures
        status == 206 <==> r is Ok,
        200 <= status < 300 && status != 206 ==> r == Err::<(), FetchError>(
            FetchError::RangeNotHonored,
        ),
        !(200 <= status < 300) ==> r == Err::<(), FetchError>(FetchError::Http(status)),
{
    if status == 206 {
        Ok(())
    } else if 200 <= status && status < 300 {
        Err(FetchError::RangeNotHonored)
    } else {
        Err(FetchError::Http(status))
    }
}

/// The value of the `Range` request header that asks for exactly the
/// planned range: `bytes=start-end`, both bounds inclusive.
pub fn range_header_value(range: &ByteRange) -> (s: String)
    ensures
        s@ == "bytes="@ + decimal_chars(range.start as int) + "-"@ + decimal_chars(
            range.end as int,
        ),
{
    let mut s = String::from_str("bytes=");
    let start_digits = u64_to_decimal(range.start);
    s.append(start_digits.as_str());
    s.append("-");
    let end_digits = u64_to_decimal(range.end);
    s.append(end_digits.as_str());
    proof {
        assert(s@ =~= "bytes="@ + decimal_chars(range.start as int) + "-"@ + decimal_chars(
            range.end as int,
        ));
    }
    s
}

} // verus!
