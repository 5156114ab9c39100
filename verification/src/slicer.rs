//! Cutting bytes into slices, all at once or as they arrive.

use vstd::prelude::*;
use vstd::arithmetic::div_mod::lemma_fundamental_div_mod_converse;
use vstd::slice::slice_subrange;
use crate::names::{slice_file_name, slice_name};
use crate::chunks::{
    lemma_ready_in_parts, lemma_slice_count, lemma_slice_lengths, lemma_slices_are_ready_then_tail,
    lemma_slices_rejoin, ready, slice_count, slices_of, tail,
};

verus! {

/// One slice: its number, counted from 0, and its bytes.
#[derive(Debug, PartialEq, Eq)]
pub struct Slice {
    pub index: u64,
    pub data: Vec<u8>,
}

impl Slice {
    /// The name of the file that holds this slice.
    pub fn file_name(&self) -> (name: String)
        ensures
            name@ == slice_name(self.index as nat),
    {
        slice_file_name(self.index)
    }
}

/// The bytes that each of `slices` holds, in order.
pub open spec fn contents(slices: Seq<Slice>) -> Seq<Seq<u8>> {
    slices.map_values(|s: Slice| s.data@)
}

/// Whether `slices` are numbered `first`, `first + 1`, and so on.
pub open spec fn numbered_from(slices: Seq<Slice>, first: nat) -> bool {
    forall|k: int| 0 <= k < slices.len() ==> (#[trigger] slices[k]).index == first + k
}

/// Cuts a stream of bytes into slices of a fixed size. Bytes are fed in
/// portions of any length; each portion hands back the slices that it has
/// completed, and `finish` hands back the short slice left at the end.
pub struct Slicer {
    chunk_size: usize,
    /// The bytes received since the last full slice; fewer than `chunk_size`.
    pending: Vec<u8>,
    /// How many slices have been handed out.
    count: u64,
    /// How many bytes have been received.
    total: u64,
    /// The bytes of the slices handed out, joined.
    done: Ghost<Seq<u8>>,
}

impl Slicer {
    /// The number of bytes in a full slice.
    pub closed spec fn chunk(&self) -> nat {
        self.chunk_size as nat
    }

    /// All the bytes received so far, in order.
    pub closed spec fn fed(&self) -> Seq<u8> {
        self.done@ + self.pending@
    }

    /// How many slices have been handed out: one for each full chunk received.
    pub open spec fn emitted(&self) -> nat {
        self.fed().len() / self.chunk()
    }

    /// The fields agree with each other and with the bytes received.
    pub closed spec fn inv(&self) -> bool {
        &&& self.pending@.len() < self.chunk_size
        &&& self.done@.len() == self.count * self.chunk_size
        &&& self.total == self.done@.len() + self.pending@.len()
    }

    /// The slicer is in a state that its own operations produce.
    pub open spec fn wf(&self) -> bool {
        self.chunk() >= 1 && self.inv()
    }

    proof fn lemma_counts(&self)
        requires
            self.wf(),
        ensures
            self.fed().len() == self.total,
            self.emitted() == self.count,
            self.fed().len() % self.chunk() == self.pending@.len(),
            self.count <= self.total,
    {
        lemma_fundamental_div_mod_converse(
            self.fed().len() as int,
            self.chunk_size as int,
            self.count as int,
            self.pending@.len() as int,
        );
        assert(self.count <= self.count * self.chunk_size) by (nonlinear_arith)
            requires
                self.chunk_size >= 1,
        ;
    }

    /// A slicer for slices of `chunk_size` bytes, which has received nothing.
    pub fn new(chunk_size: usize) -> (s: Slicer)
        requires
            chunk_size >= 1,
        ensures
            s.wf(),
            s.chunk() == chunk_size,
            s.fed() == Seq::<u8>::empty(),
    {
        let s = Slicer { chunk_size, pending: Vec::new(), count: 0, total: 0, done: Ghost(Seq::empty()) };
        assert(s.done@.len() == s.count * s.chunk_size) by (nonlinear_arith)
            requires
                s.done@.len() == 0,
                s.count == 0,
        ;
        s
    }

    /// The number of bytes in a full slice.
    pub fn chunk_size(&self) -> (n: usize)
        ensures
            n == self.chunk(),
    {
        self.chunk_size
    }

    /// How many bytes have been received.
    pub fn received(&self) -> (n: u64)
        requires
            self.wf(),
        ensures
            n == self.fed().len(),
    {
        proof {
            self.lemma_counts();
        }
        self.total
    }

    /// The number that the next slice will carry.
    pub fn next_index(&self) -> (i: u64)
        requires
            self.wf(),
        ensures
            i == self.emitted(),
    {
        proof {
            self.lemma_counts();
        }
        self.count
    }

    /// Receives `bytes` and hands back the slices that they complete, in
    /// order. Bytes that complete no slice are kept for later.
    pub fn feed(&mut self, bytes: &[u8]) -> (out: Vec<Slice>)
        requires
            old(self).wf(),
            old(self).fed().len() + bytes@.len() <= u64::MAX,
        ensures
            final(self).wf(),
            final(self).chunk() == old(self).chunk(),
            final(self).fed() == old(self).fed() + bytes@,
            contents(out@) == ready(old(self).fed().len(), final(self).fed(), old(self).chunk()),
            numbered_from(out@, old(self).emitted()),
    {
        let ghost before = self.fed();
        let ghost chunk = self.chunk();
        let mut out: Vec<Slice> = Vec::new();
        let mut pos: usize = 0;
        while pos < bytes.len()
            invariant
                self.wf(),
                self.chunk() == chunk,
                pos <= bytes@.len(),
                before.len() + bytes@.len() <= u64::MAX,
                self.fed() == before + bytes@.take(pos as int),
                contents(out@) == ready(before.len(), self.fed(), chunk),
                numbered_from(out@, before.len() / chunk),
                out@.len() == self.fed().len() / chunk - before.len() / chunk,
            decreases bytes@.len() - pos,
        {
            let ghost cur = self.fed();
            proof {
                self.lemma_counts();
            }
            let room = self.chunk_size - self.pending.len();
            let left = bytes.len() - pos;
            let take = if left < room {
                left
            } else {
                room
            };
            let part = slice_subrange(bytes, pos, pos + take);
            self.pending.extend_from_slice(part);
            self.total = self.total + take as u64;
            pos = pos + take;
            proof {
                assert(self.fed() =~= cur + part@);
                lemma_ready_in_parts(before.len(), cur, part@, chunk);
            }
            if self.pending.len() == self.chunk_size {
                let mut data: Vec<u8> = Vec::new();
                std::mem::swap(&mut self.pending, &mut data);
                let ghost joined = self.done@ + data@;
                proof {
                    assert(joined.len() == (self.count + 1) * self.chunk_size) by (nonlinear_arith)
                        requires
                            joined.len() == self.count * self.chunk_size + self.chunk_size,
                    ;
                    assert(self.count + 1 <= (self.count + 1) * self.chunk_size)
                        by (nonlinear_arith)
                        requires
                            self.chunk_size >= 1,
                    ;
                    lemma_fundamental_div_mod_converse(
                        joined.len() as int,
                        chunk as int,
                        self.count + 1,
                        0,
                    );
                    let fresh = ready(cur.len(), joined, chunk);
                    assert(fresh[0] =~= data@);
                }
                let slice = Slice { index: self.count, data };
                out.push(slice);
                self.done = Ghost(joined);
                self.count = self.count + 1;
            } else {
                proof {
                    lemma_fundamental_div_mod_converse(
                        self.fed().len() as int,
                        chunk as int,
                        self.count as int,
                        self.pending@.len() as int,
                    );
                    assert(contents(out@) =~= ready(before.len(), cur, chunk) + Seq::<
                        Seq<u8>,
                    >::empty());
                }
            }
        }
        out
    }

    /// Ends the stream and hands back the short slice that the last bytes
    /// make, if any bytes are left since the last full slice.
    pub fn finish(self) -> (last: Option<Slice>)
        requires
            self.wf(),
        ensures
            match last {
                Some(slice) => tail(self.fed(), self.chunk()) == Some(slice.data@) && slice.index
                    == self.emitted(),
                None => tail(self.fed(), self.chunk()) is None,
            },
    {
        proof {
            self.lemma_counts();
        }
        if self.pending.len() == 0 {
            None
        } else {
            Some(Slice { index: self.count, data: self.pending })
        }
    }
}

/// Cuts `data` into slices of `chunk_size` bytes. The last slice holds the
/// bytes left over, where the length of `data` is no multiple of `chunk_size`.
pub fn slice_bytes(data: &[u8], chunk_size: usize) -> (out: Vec<Slice>)
    requires
        chunk_size >= 1,
    ensures
        contents(out@) == slices_of(data@, chunk_size as nat),
        numbered_from(out@, 0),
        out@.len() == slice_count(data@.len(), chunk_size as nat),
        contents(out@).flatten() == data@,
        forall|k: int| 0 <= k < out@.len() - 1 ==> (#[trigger] out@[k]).data@.len() == chunk_size,
        data@.len() > 0 ==> out@.last().data@.len() == if data@.len() % (chunk_size as nat) == 0 {
            chunk_size as nat
        } else {
            data@.len() % (chunk_size as nat)
        },
{
    let mut slicer = Slicer::new(chunk_size);
    proof {
        vstd::slice::axiom_spec_len(data);
    }
    let mut out = slicer.feed(data);
    let ghost full = out@;
    proof {
        assert(0nat / (chunk_size as nat) == 0) by (nonlinear_arith)
            requires
                chunk_size >= 1,
        ;
        lemma_slices_are_ready_then_tail(data@, chunk_size as nat);
        lemma_slices_rejoin(data@, chunk_size as nat);
        lemma_slice_count(data@.len(), chunk_size as nat);
    }
    if let Some(last) = slicer.finish() {
        out.push(last);
        proof {
            assert(contents(out@) =~= contents(full) + seq![last.data@]);
        }
    }
    proof {
        lemma_slice_lengths(data@, chunk_size as nat);
        assert forall|k: int| 0 <= k < out@.len() implies (#[trigger] out@[k]).data@ == slices_of(
            data@,
            chunk_size as nat,
        )[k] by {}
        if data@.len() > 0 {
            assert(slices_of(data@, chunk_size as nat).last() == slices_of(
                data@,
                chunk_size as nat,
            )[out@.len() - 1]);
        }
    }
    out
}

} // verus!
