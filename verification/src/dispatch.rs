//! Batching and bounded dispatch of enrichment work.
//!
//! The incomplete set is split into fixed-size chunks; a dispatcher hands
//! chunks out to at most `width` concurrent workers. Within a chunk, items
//! are processed sequentially by one worker; the dispatcher only bounds how
//! many chunks are in flight at once.

use vstd::prelude::*;
use vstd::seq_lib::*;

use crate::records::ChannelData;

verus! {

/// The views of a list of chunks.
pub open spec fn chunks_view(chunks: Seq<Vec<ChannelData>>) -> Seq<Seq<ChannelData>> {
    chunks.map_values(|v: Vec<ChannelData>| v@)
}

/// Splits the items into chunks of exactly `size` records, the last chunk
/// holding the remainder. Nothing is lost, reordered or duplicated: the
/// chunks concatenate back to the input.
pub fn chunk_records(items: &Vec<ChannelData>, size: usize) -> (r: Vec<Vec<ChannelData>>)
    requires
        size > 0,
    ensures
        chunks_view(r@).flatten() == items@,
        forall|i: int| 0 <= i < r@.len() ==> 0 < (#[trigger] r@[i])@.len() <= size,
        forall|i: int| 0 <= i < r@.len() - 1 ==> (#[trigger] r@[i])@.len() == size,
{
    let n = items.len();
    let mut chunks: Vec<Vec<ChannelData>> = Vec::new();
    let mut cur: Vec<ChannelData> = Vec::new();
    let mut i: usize = 0;
    proof {
        assert(chunks_view(chunks@) =~= Seq::<Seq<ChannelData>>::empty());
        assert(chunks_view(chunks@).flatten() + cur@ =~= items@.subrange(0, 0));
    }
    while i < n
        invariant
            n == items@.len(),
            i <= n,
            size > 0,
            cur@.len() < size,
            chunks_view(chunks@).flatten() + cur@ == items@.subrange(0, i as int),
            forall|k: int| 0 <= k < chunks@.len() ==> (#[trigger] chunks@[k])@.len() == size,
        decreases n - i,
    {
        cur.push(items[i].clone());
        proof {
            assert(items@.subrange(0, i + 1 as int) =~= items@.subrange(0, i as int).push(
                items@[i as int],
            ));
            assert(chunks_view(chunks@).flatten() + cur@ =~= items@.subrange(0, i + 1 as int));
        }
        i += 1;
        if cur.len() == size {
            let full = cur;
            cur = Vec::new();
            proof {
                chunks_view(chunks@).lemma_flatten_push(full@);
                assert(chunks_view(chunks@.push(full)) =~= chunks_view(chunks@).push(full@));
                assert(chunks_view(chunks@.push(full)).flatten() + cur@ =~= items@.subrange(
                    0,
                    i as int,
                ));
            }
            chunks.push(full);
        }
    }
    if cur.len() > 0 {
        proof {
            chunks_view(chunks@).lemma_flatten_push(cur@);
            assert(chunks_view(chunks@.push(cur)) =~= chunks_view(chunks@).push(cur@));
            assert(chunks_view(chunks@.push(cur)).flatten() =~= items@.subrange(0, n as int));
            assert(items@.subrange(0, n as int) =~= items@);
        }
        chunks.push(cur);
    } else {
        proof {
            assert(chunks_view(chunks@).flatten() + cur@ =~= chunks_view(chunks@).flatten());
            assert(items@.subrange(0, n as int) =~= items@);
        }
    }
    chunks
}

/// Hands chunks to a pool of workers while bounding how many are in flight.
///
/// The caller asks for work with `try_dispatch` and reports a finished chunk
/// with `complete_one`; at every point at most `width` chunks are out.
#[derive(Debug)]
pub struct Dispatcher {
    pub chunks: Vec<Vec<ChannelData>>,
    pub next: usize,
    pub in_flight: usize,
    pub width: usize,
}

impl Dispatcher {
    /// The dispatcher's invariant: the cursor stays in range and the number
    /// of chunks in flight never exceeds the configured width.
    pub open spec fn wf(self) -> bool {
        &&& self.next <= self.chunks@.len()
        &&& self.in_flight <= self.width
    }

    /// A fresh dispatcher over the given chunks, nothing dispatched yet.
    pub fn new(chunks: Vec<Vec<ChannelData>>, width: usize) -> (d: Dispatcher)
        requires
            width >= 1,
        ensures
            d.wf(),
            d.chunks == chunks,
            d.next == 0,
            d.in_flight == 0,
            d.width == width,
    {
        Dispatcher { chunks, next: 0, in_flight: 0, width }
    }

    /// Hands out the next chunk when one remains and a worker slot is free;
    /// refuses otherwise. The concurrency bound `in_flight <= width` is
    /// maintained unconditionally.
    pub fn try_dispatch(&mut self) -> (r: Option<Vec<ChannelData>>)
        requires
            old(self).wf(),
        ensures
            final(self).wf(),
            final(self).chunks == old(self).chunks,
            final(self).width == old(self).width,
            final(self).in_flight <= final(self).width,
            match r {
                Some(chunk) => {
                    &&& old(self).in_flight < old(self).width
                    &&& old(self).next < old(self).chunks@.len()
                    &&& chunk@ == old(self).chunks@[old(self).next as int]@
                    &&& final(self).next == old(self).next + 1
                    &&& final(self).in_flight == old(self).in_flight + 1
                },
                None => {
                    &&& old(self).in_flight == old(self).width || old(self).next == old(
                        self,
                    ).chunks@.len()
                    &&& *final(self) == *old(self)
                },
            },
    {
        if self.in_flight < self.width && self.next < self.chunks.len() {
            let chunk = self.chunks[self.next].clone();
            self.next = self.next + 1;
            self.in_flight = self.in_flight + 1;
            proof {
                assert(chunk@ =~= old(self).chunks@[old(self).next as int]@);
            }
            Some(chunk)
        } else {
            None
        }
    }

    /// Records that one in-flight chunk finished, freeing a worker slot.
    pub fn complete_one(&mut self)
        requires
            old(self).wf(),
            old(self).in_flight > 0,
        ensures
            final(self).wf(),
            final(self).chunks == old(self).chunks,
            final(self).width == old(self).width,
            final(self).next == old(self).next,
            final(self).in_flight == old(self).in_flight - 1,
    {
        self.in_flight = self.in_flight - 1;
    }

    /// Whether every chunk has been handed out and reported finished.
    pub fn done(&self) -> (r: bool)
        ensures
            r == (self.next == self.chunks@.len() && self.in_flight == 0),
    {
        self.next == self.chunks.len() && self.in_flight == 0
    }
}

/// The concurrency bound: a well-formed dispatcher never has more chunks in
/// flight than its configured worker width.
pub proof fn lemma_concurrency_bound(d: Dispatcher)
    requires
        d.wf(),
    ensures
        d.in_flight <= d.width,
{
}

} // verus!
