//! Bookkeeping for the bulk-transport retry layer and the upload chunk
//! plan.
//!
//! A bulk transfer may be reported short by the device: fewer bytes
//! moved than requested, without an error.  The transport then resumes
//! from the new offset until the whole buffer has moved.
//! [`TransferProgress`] is the verified ledger of that loop.  For the
//! programming upload, [`upload_chunks`] plans the bursts: every chunk
//! is the device's FIFO capacity in bytes except the last, which takes
//! whatever remains.

use vstd::prelude::*;
use vstd::arithmetic::div_mod::lemma_fundamental_div_mod_converse;

verus! {

/// Progress of one bulk transfer that may need several attempts.
pub struct TransferProgress {
    /// Total bytes the operation must move.
    pub total: usize,
    /// Bytes already moved by earlier, possibly short, attempts.
    pub offset: usize,
}

impl TransferProgress {
    /// The ledger never records more bytes than were requested.
    pub open spec fn wf(&self) -> bool {
        self.offset <= self.total
    }

    /// Bytes still to move.
    pub open spec fn spec_remaining(&self) -> int {
        self.total - self.offset
    }

    /// Whether the whole buffer has been transferred.
    pub open spec fn spec_done(&self) -> bool {
        self.offset == self.total
    }

    /// Start a transfer of `total` bytes.
    pub fn new(total: usize) -> (r: Self)
        ensures
            r.wf(),
            r.total == total,
            r.offset == 0,
    {
        TransferProgress { total, offset: 0 }
    }

    /// Bytes still to move; the length the next attempt should request.
    pub fn remaining(&self) -> (r: usize)
        requires
            self.wf(),
        ensures
            r == self.spec_remaining(),
    {
        self.total - self.offset
    }

    /// Whether the transfer is complete.
    pub fn is_done(&self) -> (r: bool)
        ensures
            r == self.spec_done(),
    {
        self.offset == self.total
    }

    /// Record that the device reported `transferred` bytes moved; the
    /// next attempt resumes from the new offset.
    pub fn advance(&mut self, transferred: usize)
        requires
            old(self).wf(),
            transferred <= old(self).spec_remaining(),
        ensures
            final(self).wf(),
            final(self).total == old(self).total,
            final(self).offset == old(self).offset + transferred,
    {
        self.offset = self.offset + transferred;
    }
}

/// Law: a transfer resumed after a short attempt moves the same bytes
/// as a single complete attempt.  If the first attempt moves bytes
/// `0..k` of the buffer and the second the remaining `k..len`, the two
/// attempted ranges concatenate to exactly the whole buffer; and by
/// [`TransferProgress::advance`], recording `k` then `len - k` leaves
/// the ledger in the same state as recording `len` at once.
pub proof fn lemma_split_transfer(data: Seq<u8>, k: int)
    requires
        0 <= k <= data.len(),
    ensures
        data.subrange(0, k) + data.subrange(k, data.len() as int) == data,
{
    assert(data.subrange(0, k) + data.subrange(k, data.len() as int) =~= data);
}

/// The number of bursts needed to move `total` bytes in bursts of at
/// most `chunk` bytes: the ceiling of `total / chunk`.
pub open spec fn chunk_count(total: int, chunk: int) -> int {
    total / chunk + if total % chunk == 0 { 0int } else { 1int }
}

/// Plan the programming upload: split `total` bytes into consecutive
/// `(offset, length)` bursts of at most `chunk` bytes each.
///
/// The plan has exactly `chunk_count(total, chunk)` bursts.  Every
/// burst except the last moves exactly `chunk` bytes; the last moves
/// `total % chunk` bytes, or a full `chunk` when `total` divides
/// evenly.  The bursts tile `0..total` in order and none is empty.
pub fn upload_chunks(total: usize, chunk: usize) -> (r: Vec<(usize, usize)>)
    requires
        chunk > 0,
    ensures
        r@.len() == chunk_count(total as int, chunk as int),
        forall|k: int| 0 <= k < r@.len() ==> (#[trigger] r@[k]).0 == k * chunk,
        forall|k: int| 0 <= k < r@.len() - 1 ==> (#[trigger] r@[k]).1 == chunk,
        forall|k: int| 0 <= k < r@.len() ==> (#[trigger] r@[k]).0 + r@[k].1 <= total,
        forall|k: int| 0 <= k < r@.len() ==> (#[trigger] r@[k]).1 > 0,
        r@.len() > 0 ==> r@[r@.len() - 1].0 + r@[r@.len() - 1].1 == total,
        r@.len() > 0 ==> r@[r@.len() - 1].1 == (
            if total as int % (chunk as int) == 0 { chunk as int } else { total as int % (chunk as int) }
        ),
    {
    let mut r: Vec<(usize, usize)> = Vec::new();
    let mut offset: usize = 0;
    proof {
        assert(r@.len() == 0);
        assert(r@.len() * chunk == 0) by (nonlinear_arith)
            requires
                r@.len() == 0,
        ;
    }
    while offset < total
        invariant
            chunk > 0,
            offset <= total,
            offset == r@.len() * chunk || offset == total,
            forall|k: int| 0 <= k < r@.len() ==> (#[trigger] r@[k]).0 == k * chunk,
            forall|k: int| 0 <= k < r@.len() - 1 ==> (#[trigger] r@[k]).1 == chunk,
            forall|k: int| 0 <= k < r@.len() ==> (#[trigger] r@[k]).1 > 0,
            forall|k: int| 0 <= k < r@.len() ==> (#[trigger] r@[k]).1 <= chunk,
            forall|k: int| 0 <= k < r@.len() ==> (#[trigger] r@[k]).0 + r@[k].1 <= offset,
            r@.len() > 0 ==> r@[r@.len() - 1].0 + r@[r@.len() - 1].1 == offset,
            r@.len() == 0 ==> offset == 0,
        decreases total - offset,
    {
        let remaining = total - offset;
        let size = if remaining < chunk { remaining } else { chunk };
        let ghost len0 = r@.len();
        proof {
            assert(offset == len0 * chunk);
            if len0 > 0 {
                assert(len0 * chunk == (len0 - 1) * chunk + chunk) by (nonlinear_arith);
            }
        }
        r.push((offset, size));
        proof {
            assert((len0 + 1) * chunk == len0 * chunk + chunk) by (nonlinear_arith);
        }
        offset = offset + size;
    }
    proof {
        let t = total as int;
        let c = chunk as int;
        let n = r@.len() as int;
        if n == 0 {
            assert(t == 0);
            lemma_fundamental_div_mod_converse(t, c, 0, 0);
        } else {
            let last = r@[n - 1].1 as int;
            assert(r@[n - 1].0 == (n - 1) * c);
            assert(t == (n - 1) * c + last);
            assert(0 < last <= c);
            if last == c {
                assert(t == n * c + 0) by (nonlinear_arith)
                    requires
                        t == (n - 1) * c + last,
                        last == c,
                ;
                lemma_fundamental_div_mod_converse(t, c, n, 0);
            } else {
                assert(0 < last < c);
                lemma_fundamental_div_mod_converse(t, c, n - 1, last);
            }
        }
    }
    r
}

} // verus!
